//! The expedition through the pyramid: a fixed sequence of duels. What a
//! phase starts with, what the end of a duel does to the save, and where the
//! player goes next.

use vstd::prelude::*;
use crate::inventory::{recovered_life, recovered_player_life, SaveData, SavedScript};
use crate::monsters::PHASE_COUNT;
use crate::numtext::{nat_digits, u64_text};
use crate::text::{chars_of, push_chars, push_str, char_whitespace, is_whitespace};

verus! {

/// How a duel ended.
#[derive(Debug, Clone, Copy, PartialEq, Eq, Structural)]
pub enum DuelOutcome {
    Won,
    Lost,
    Fled,
}

/// Where the player goes after a duel.
#[derive(Debug, Clone, Copy, PartialEq, Eq, Structural)]
pub enum AfterDuel {
    /// back to the menu; the next phase waits
    Menu,
    /// the whole pyramid was beaten
    Victory,
    Defeat,
}

/// The life a phase starts with: what the save kept, at least 1 (a phase
/// never starts lost) and at most the maximum; full life when nothing was
/// kept.
pub fn phase_start_life(saved: Option<i32>, max_life: i32) -> (r: i32)
    requires
        max_life >= 1,
    ensures
        1 <= r <= max_life,
        r == match saved {
            Some(l) => if l < 1 {
                1
            } else if l > max_life {
                max_life
            } else {
                l
            },
            None => max_life,
        },
{
    match saved {
        Some(l) => if l < 1 {
            1
        } else if l > max_life {
            max_life
        } else {
            l
        },
        None => max_life,
    }
}

/// What the end of a duel does to the save. A victory moves to the next
/// phase and keeps the life with the partial recovery between phases; a
/// defeat gives full life back for the retry; fleeing keeps the phase and
/// the life as it is (at least 1).
pub fn settle_duel(save: &mut SaveData, outcome: DuelOutcome, player_life: i32, max_life: i32) -> (r: AfterDuel)
    requires
        old(save).current_phase < usize::MAX,
        i32::MIN <= max_life - player_life,
        (max_life - player_life) * 9 <= i32::MAX,
    ensures
        final(save).loadout == old(save).loadout,
        final(save).bag == old(save).bag,
        final(save).scripts == old(save).scripts,
        final(save).player_class == old(save).player_class,
        outcome == DuelOutcome::Won ==> {
            &&& final(save).current_phase == old(save).current_phase + 1
            &&& final(save).player_life == Some(recovered_life(player_life as int, max_life as int) as i32)
            &&& r == if final(save).current_phase >= PHASE_COUNT {
                AfterDuel::Victory
            } else {
                AfterDuel::Menu
            }
        },
        outcome == DuelOutcome::Lost ==> {
            &&& final(save).current_phase == old(save).current_phase
            &&& final(save).player_life is None
            &&& r == AfterDuel::Defeat
        },
        outcome == DuelOutcome::Fled ==> {
            &&& final(save).current_phase == old(save).current_phase
            &&& final(save).player_life == Some(if player_life >= 1 { player_life } else { 1i32 })
            &&& r == AfterDuel::Menu
        },
{
    match outcome {
        DuelOutcome::Won => {
            save.current_phase = save.current_phase + 1;
            save.player_life = Some(recovered_player_life(player_life, max_life));
            if save.current_phase >= PHASE_COUNT {
                AfterDuel::Victory
            } else {
                AfterDuel::Menu
            }
        },
        DuelOutcome::Lost => {
            save.player_life = None;
            AfterDuel::Defeat
        },
        DuelOutcome::Fled => {
            save.player_life = Some(
                if player_life >= 1 {
                    player_life
                } else {
                    1
                },
            );
            AfterDuel::Menu
        },
    }
}

/// How a duel stands once a turn has been played out: won when the monster
/// has no life left (this wins even when the player fell in the same turn),
/// lost when the player has none, and still going otherwise.
pub fn duel_end(monster_life: i32, player_life: i32) -> (r: Option<DuelOutcome>)
    ensures
        monster_life <= 0 ==> r == Some(DuelOutcome::Won),
        monster_life > 0 && player_life <= 0 ==> r == Some(DuelOutcome::Lost),
        monster_life > 0 && player_life > 0 ==> r is None,
{
    if monster_life <= 0 {
        Some(DuelOutcome::Won)
    } else if player_life <= 0 {
        Some(DuelOutcome::Lost)
    } else {
        None
    }
}

/// Whether the text is only white space.
pub open spec fn blank(s: Seq<char>) -> bool {
    forall|i: int| 0 <= i < s.len() ==> char_whitespace(#[trigger] s[i])
}

pub open spec fn script_name(n: nat) -> Seq<char> {
    "script-"@ + nat_digits(n) + ".pii"@
}

/// Saves the editor's text as a new script of the grimoire, named by its
/// position; an empty (or blank) text is not saved. Returns the name.
pub fn save_script(save: &mut SaveData, body: String) -> (r: Option<String>)
    requires
        old(save).scripts@.len() < usize::MAX,
    ensures
        blank(body@) ==> r is None && *final(save) == *old(save),
        !blank(body@) ==> {
            &&& r matches Some(name) && name@ == script_name(old(save).scripts@.len() + 1)
            &&& final(save).scripts@.len() == old(save).scripts@.len() + 1
            &&& final(save).scripts@.take(old(save).scripts@.len() as int) == old(save).scripts@
            &&& final(save).scripts@.last().name@ == script_name(old(save).scripts@.len() + 1)
            &&& final(save).scripts@.last().body == body
            &&& final(save).loadout == old(save).loadout
            &&& final(save).bag == old(save).bag
            &&& final(save).current_phase == old(save).current_phase
            &&& final(save).player_life == old(save).player_life
            &&& final(save).player_class == old(save).player_class
        },
{
    let cs = chars_of(body.as_str());
    let n = cs.len();
    let mut i: usize = 0;
    while i < n && is_whitespace(cs[i])
        invariant
            i <= n,
            n == cs@.len(),
            forall|j: int| 0 <= j < i ==> char_whitespace(#[trigger] cs@[j]),
        decreases n - i,
    {
        i += 1;
    }
    if i == n {
        return None;
    }
    let count = save.scripts.len() + 1;
    let mut name = String::new();
    push_str(&mut name, "script-");
    let digits = u64_text(count as u64);
    push_chars(&mut name, digits.as_slice());
    push_str(&mut name, ".pii");
    let ret = name.clone();
    let ghost before = save.scripts@;
    save.scripts.push(SavedScript { name, body });
    assert(save.scripts@.take(before.len() as int) =~= before);
    Some(ret)
}

} // verus!
