//! The efficiency grade of a won duel is measured against a reference script
//! per monster: the strategy that beats it as intended. This module holds the
//! grades, the reference scripts, and the bookkeeping of a reference run
//! (turn after turn, from full life until the monster falls).

use vstd::prelude::*;
use crate::monsters::{posture_toggled, MonsterSpec, Posture};
use crate::script::vm::TurnResult;
use crate::text::{push_str, str_eq};

verus! {

/// The final grade shown on the victory panel, from worst to best.
#[derive(Debug, Clone, Copy, PartialEq, Eq, PartialOrd, Ord)]
pub enum Grade {
    C,
    B,
    A,
    S,
}

pub open spec fn grade_label(g: Grade) -> Seq<char> {
    match g {
        Grade::S => "S"@,
        Grade::A => "A"@,
        Grade::B => "B"@,
        Grade::C => "C"@,
    }
}

impl Grade {
    pub fn label(self) -> (r: &'static str)
        ensures
            r@ == grade_label(self),
    {
        match self {
            Grade::S => "S",
            Grade::A => "A",
            Grade::B => "B",
            Grade::C => "C",
        }
    }
}

/// `s` written `n` times.
pub open spec fn repeated(s: Seq<char>, n: nat) -> Seq<char>
    decreases n,
{
    if n == 0 {
        Seq::empty()
    } else {
        repeated(s, (n - 1) as nat) + s
    }
}

fn push_repeated(out: &mut String, s: &str, n: usize)
    ensures
        final(out)@ == old(out)@ + repeated(s@, n as nat),
{
    let mut i: usize = 0;
    while i < n
        invariant
            i <= n,
            out@ == old(out)@ + repeated(s@, i as nat),
        decreases n - i,
    {
        push_str(out, s);
        i += 1;
        assert(out@ =~= old(out)@ + repeated(s@, i as nat));
    }
}

pub open spec fn guard_test() -> Seq<char> {
    "if inimigo.postura == "@ + seq![crate::script::vm::DOUBLE_QUOTE] + "guarda"@ + seq![
        crate::script::vm::DOUBLE_QUOTE,
    ] + ":\n"@
}

/// The reference script of each monster of the bestiary, by its title, and
/// whether the monster's posture flips from turn to turn in the reference
/// run.
pub open spec fn reference_text(title: Seq<char>) -> Option<(Seq<char>, bool)> {
    if title == "Mumia"@ {
        Some((repeated("atacar(magia.Fogo)\n"@, 3), false))
    } else if title == "Zumbi"@ {
        Some((repeated("atacar(espada.Ferro)\n"@, 3), false))
    } else if title == "Escaravelho"@ {
        Some((guard_test() + repeated("    atacar(espada.Bronze)\n"@, 5), true))
    } else if title == "Esfinge"@ {
        Some(("inspecionar()\n"@ + repeated("atacar(espada.Bronze)\n"@, 3), false))
    } else if title == "Aker"@ {
        Some(
            (
                "inspecionar()\n"@ + guard_test() + repeated("    atacar(espada.Bronze)\n"@, 4)
                    + "else:\n    esperar()\n"@,
                true,
            ),
        )
    } else if title == "Apagado"@ {
        Some(("func golpe():\n    atacar(espada.Bronze)\n\n"@ + repeated("golpe()\n"@, 3), false))
    } else if title == "Chabti-Mor"@ {
        Some(
            (
                "invocar a:\n    esperar()\ninvocar b:\n    esperar()\n"@ + repeated("atacar(espada.Bronze)\n"@, 2),
                false,
            ),
        )
    } else {
        None
    }
}

fn push_guard_test(out: &mut String)
    ensures
        final(out)@ == old(out)@ + guard_test(),
{
    push_str(out, "if inimigo.postura == ");
    crate::text::push_char(out, crate::script::vm::DOUBLE_QUOTE);
    push_str(out, "guarda");
    crate::text::push_char(out, crate::script::vm::DOUBLE_QUOTE);
    push_str(out, ":\n");
}

/// The reference script of the monster with this title, `None` for a title
/// outside the bestiary: no grade is ever made up for it.
pub fn reference_script(title: &str) -> (r: Option<(String, bool)>)
    ensures
        match (r, reference_text(title@)) {
            (Some((s, t)), Some((s2, t2))) => s@ == s2 && t == t2,
            (None, None) => true,
            _ => false,
        },
{
    let mut s = String::new();
    if str_eq(title, "Mumia") {
        push_repeated(&mut s, "atacar(magia.Fogo)\n", 3);
        Some((s, false))
    } else if str_eq(title, "Zumbi") {
        push_repeated(&mut s, "atacar(espada.Ferro)\n", 3);
        Some((s, false))
    } else if str_eq(title, "Escaravelho") {
        push_guard_test(&mut s);
        push_repeated(&mut s, "    atacar(espada.Bronze)\n", 5);
        Some((s, true))
    } else if str_eq(title, "Esfinge") {
        push_str(&mut s, "inspecionar()\n");
        push_repeated(&mut s, "atacar(espada.Bronze)\n", 3);
        Some((s, false))
    } else if str_eq(title, "Aker") {
        push_str(&mut s, "inspecionar()\n");
        push_guard_test(&mut s);
        push_repeated(&mut s, "    atacar(espada.Bronze)\n", 4);
        push_str(&mut s, "else:\n    esperar()\n");
        Some((s, true))
    } else if str_eq(title, "Apagado") {
        push_str(&mut s, "func golpe():\n    atacar(espada.Bronze)\n\n");
        push_repeated(&mut s, "golpe()\n", 3);
        Some((s, false))
    } else if str_eq(title, "Chabti-Mor") {
        push_str(&mut s, "invocar a:\n    esperar()\ninvocar b:\n    esperar()\n");
        push_repeated(&mut s, "atacar(espada.Bronze)\n", 2);
        Some((s, false))
    } else {
        None
    }
}

/// A reference run gives up after this many turns.
pub const REFERENCE_TURN_LIMIT: u32 = 200;

/// A reference run in progress: the monster's life and posture, the turns
/// played and the cycles spent.
pub struct ReferenceRun {
    pub life: i32,
    pub posture: Posture,
    pub turns: u32,
    pub total_cycles: u32,
    /// whether the posture flips after every turn
    pub toggle_posture: bool,
}

impl ReferenceRun {
    /// A run against the monster at full life, in guard.
    pub fn new(spec: &MonsterSpec, toggle_posture: bool) -> (r: ReferenceRun)
        ensures
            r.life == spec.max_life,
            r.posture == Posture::Guarda,
            r.turns == 0,
            r.total_cycles == 0,
            r.toggle_posture == toggle_posture,
    {
        ReferenceRun { life: spec.max_life, posture: Posture::Guarda, turns: 0, total_cycles: 0, toggle_posture }
    }

    /// Whether another turn is played: the monster still stands and the
    /// limit of turns was not reached.
    pub fn wants_turn(&self) -> (r: bool)
        ensures
            r == (self.life > 0 && self.turns < REFERENCE_TURN_LIMIT),
    {
        self.life > 0 && self.turns < REFERENCE_TURN_LIMIT
    }

    /// Takes in the result of a turn. A turn that ran over budget spoils the
    /// run (`false`): the reference never does.
    pub fn absorb(&mut self, r: &TurnResult) -> (ok: bool)
        requires
            old(self).turns < REFERENCE_TURN_LIMIT,
            old(self).total_cycles + r.cycles_used <= u32::MAX,
        ensures
            r.truncated ==> !ok && *final(self) == *old(self),
            !r.truncated ==> {
                &&& ok
                &&& final(self).life == r.enemy_life
                &&& final(self).total_cycles == old(self).total_cycles + r.cycles_used
                &&& final(self).turns == old(self).turns + 1
                &&& final(self).toggle_posture == old(self).toggle_posture
                &&& final(self).posture == if old(self).toggle_posture {
                    posture_toggled(old(self).posture)
                } else {
                    old(self).posture
                }
            },
    {
        if r.truncated {
            return false;
        }
        self.total_cycles = self.total_cycles + r.cycles_used;
        self.life = r.enemy_life;
        if self.toggle_posture {
            self.posture = self.posture.toggled();
        }
        self.turns = self.turns + 1;
        true
    }

    /// The turns and the cycles of a run that ended with the monster at
    /// exactly zero life; `None` otherwise.
    pub fn outcome(&self) -> (r: Option<(u32, u32)>)
        ensures
            self.life == 0 ==> r == Some((self.turns, self.total_cycles)),
            self.life != 0 ==> r is None,
    {
        if self.life == 0 {
            Some((self.turns, self.total_cycles))
        } else {
            None
        }
    }
}

} // verus!
