//! The dress rehearsal: the script in the editor is run turn after turn on a
//! copy of the duel, to show the player how the fight would go. The turns
//! themselves are run by the evaluator; this module keeps the record, numbers
//! the turns, and decides when the rehearsal is over.

use vstd::prelude::*;
use crate::script::error::ScriptError;
use crate::script::vm::{fits, TurnResult};

verus! {

/// A finite ceiling, generous for any duel of the bestiary: a script that
/// never closes the duel still ends.
pub const REHEARSAL_TURN_CAP: usize = 50;

/// One line of the per-turn list.
#[derive(Debug, Clone, PartialEq)]
pub struct RehearsalTurn {
    pub turn: usize,
    /// life the enemy lost this turn
    pub damage_dealt: i32,
    pub cycles_used: u32,
    pub cycle_budget: u32,
    pub truncated: bool,
    /// life the player lost this turn; negative when a heal outweighed the
    /// monster's blow
    pub damage_taken: i32,
}

/// Why the rehearsal stopped.
#[derive(Debug, Clone, PartialEq)]
pub enum RehearsalEnd {
    MonsterDied,
    PlayerDied,
    TurnCapReached,
    /// a later turn met an error that the current state did not show
    Error(ScriptError),
}

#[derive(Debug, Clone, PartialEq)]
pub struct RehearsalReport {
    pub turns: Vec<RehearsalTurn>,
    pub end: RehearsalEnd,
}

/// A rehearsal in progress: the turns recorded so far and the player's life
/// in the simulated duel.
pub struct Rehearsal {
    pub turns: Vec<RehearsalTurn>,
    pub player_life: i32,
}

/// The turns are numbered from one, in order, and never more than the
/// ceiling.
pub open spec fn turns_numbered(turns: Seq<RehearsalTurn>) -> bool {
    &&& turns.len() <= REHEARSAL_TURN_CAP
    &&& forall|i: int| 0 <= i < turns.len() ==> (#[trigger] turns[i]).turn == i + 1
}

/// How a turn ends the rehearsal: the monster's death first, then the
/// player's.
pub open spec fn end_after(enemy_life_after: int, player_life_after: int) -> Option<RehearsalEnd> {
    if enemy_life_after <= 0 {
        Some(RehearsalEnd::MonsterDied)
    } else if player_life_after <= 0 {
        Some(RehearsalEnd::PlayerDied)
    } else {
        None
    }
}

impl Rehearsal {
    pub open spec fn wf(&self) -> bool {
        &&& turns_numbered(self.turns@)
    }

    /// A rehearsal that has not run any turn yet.
    pub fn new(player_life: i32) -> (r: Rehearsal)
        ensures
            r.wf(),
            r.turns@.len() == 0,
            r.player_life == player_life,
    {
        Rehearsal { turns: Vec::new(), player_life }
    }

    /// Whether the ceiling of turns was reached.
    pub fn at_cap(&self) -> (r: bool)
        ensures
            r == (self.turns@.len() >= REHEARSAL_TURN_CAP),
    {
        self.turns.len() >= REHEARSAL_TURN_CAP
    }

    /// Records a simulated turn, with the enemy's life before and after it,
    /// and says whether the rehearsal is over.
    pub fn record(&mut self, enemy_life_before: i32, enemy_life_after: i32, result: &TurnResult) -> (r: Option<
        RehearsalEnd,
    >)
        requires
            old(self).wf(),
            old(self).turns@.len() < REHEARSAL_TURN_CAP,
            fits(enemy_life_before - enemy_life_after),
            fits(old(self).player_life - result.player_life),
        ensures
            final(self).wf(),
            final(self).player_life == result.player_life,
            final(self).turns@ == old(self).turns@.push(
                RehearsalTurn {
                    turn: (old(self).turns@.len() + 1) as usize,
                    damage_dealt: (enemy_life_before - enemy_life_after) as i32,
                    cycles_used: result.cycles_used,
                    cycle_budget: result.cycle_budget,
                    truncated: result.truncated,
                    damage_taken: (old(self).player_life - result.player_life) as i32,
                },
            ),
            r == end_after(enemy_life_after as int, result.player_life as int),
    {
        let turn = self.turns.len() + 1;
        let damage_dealt = enemy_life_before - enemy_life_after;
        let damage_taken = self.player_life - result.player_life;
        self.player_life = result.player_life;
        self.turns.push(
            RehearsalTurn {
                turn,
                damage_dealt,
                cycles_used: result.cycles_used,
                cycle_budget: result.cycle_budget,
                truncated: result.truncated,
                damage_taken,
            },
        );
        if enemy_life_after <= 0 {
            Some(RehearsalEnd::MonsterDied)
        } else if result.player_life <= 0 {
            Some(RehearsalEnd::PlayerDied)
        } else {
            None
        }
    }

    /// A rehearsal never runs past its ceiling: every rehearsal built by
    /// `new` and `record` holds at most `REHEARSAL_TURN_CAP` turns, numbered
    /// from one.
    pub proof fn lemma_turn_cap(&self)
        requires
            self.wf(),
        ensures
            self.turns@.len() <= REHEARSAL_TURN_CAP,
            forall|i: int| 0 <= i < self.turns@.len() ==> #[trigger] self.turns@[i].turn == i + 1,
    {
    }

    /// The report of the rehearsal, ended for the given reason.
    pub fn finish(self, end: RehearsalEnd) -> (r: RehearsalReport)
        ensures
            r.turns@ == self.turns@,
            r.end == end,
    {
        RehearsalReport { turns: self.turns, end }
    }
}

} // verus!
