//! The native functions a script may call, and what each step of a script
//! costs in cycles. A turn has a cycle budget; a script that spends more is
//! cut short, so the better algorithm wins.

use vstd::prelude::*;
use crate::text::str_eq;

verus! {

/// Cycles that each native function costs, by its name; `None` for any other
/// name.
pub open spec fn native_cost(name: Seq<char>) -> Option<u32> {
    if name == "atacar"@ {
        Some(2)
    } else if name == "defender"@ {
        Some(1)
    } else if name == "inspecionar"@ {
        Some(3)
    } else if name == "curar"@ {
        Some(4)
    } else if name == "esperar"@ {
        Some(1)
    } else {
        None
    }
}

pub fn call_cost(name: &str) -> (r: Option<u32>)
    ensures
        r == native_cost(name@),
{
    if str_eq(name, "atacar") {
        Some(2)
    } else if str_eq(name, "defender") {
        Some(1)
    } else if str_eq(name, "inspecionar") {
        Some(3)
    } else if str_eq(name, "curar") {
        Some(4)
    } else if str_eq(name, "esperar") {
        Some(1)
    } else {
        None
    }
}

/// Cost of each evaluation of a `while`/`for` condition.
pub const LOOP_TICK_COST: u32 = 1;

/// Cost of evaluating an `if` condition.
pub const BRANCH_COST: u32 = 1;

/// Cost charged once per statement written in the program (not per
/// execution), so that unrolling a loop by hand only pays off for a few
/// repetitions.
pub const STMT_SIZE_COST: u32 = 2;

/// Cost of calling a function defined by the player, charged before its body.
pub const USER_CALL_COST: u32 = 1;

/// Engineering limit on nested calls of player functions.
pub const MAX_CALL_DEPTH: usize = 32;

/// Damage added when the attacking item's kind is the player class's
/// affinity.
pub const CLASS_BONUS_DAMAGE: i32 = 4;

/// Cost, from the main budget, of reaching an `invocar` block.
pub const INVOKE_COST: u32 = 2;

/// The fixed budget of the body of an `invocar` block.
pub const INVOKE_BUDGET: u32 = 4;

/// At most this many `invocar` blocks run per turn.
pub const MAX_INVOCATIONS_PER_TURN: usize = 2;

/// Cost of examining one item of the bag in `selecionar`.
pub const SELECT_SCAN_COST: u32 = 1;

/// The turn's blow is multiplied by this when the script ran over budget.
pub const TRUNCATE_DAMAGE_MULTIPLIER: i32 = 2;

} // verus!
