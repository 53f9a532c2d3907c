//! How a statement is run, one step at a time: what each step charges and
//! what the evaluator does next (evaluate a condition or a range, run a
//! block, or finish). The evaluator computes the script's values and
//! reports them back as events; every cost is decided here. The same for
//! `selecionar()`, which examines the bag one candidate at a time.

use vstd::prelude::*;
use crate::script::api::{BRANCH_COST, LOOP_TICK_COST, SELECT_SCAN_COST};
use crate::script::ast::StmtKind;
use crate::script::vm::{Signal, TurnEvent, Vm};

verus! {

/// What a statement is, as far as running it goes.
#[derive(Debug, Clone, Copy, PartialEq, Eq, Structural)]
pub enum StmtShape {
    /// an expression or an assignment: evaluated once, nothing charged
    Plain,
    If { has_else: bool },
    While,
    For,
    FuncDef,
    Invoke,
}

pub open spec fn stmt_shape(k: StmtKind) -> StmtShape {
    match k {
        StmtKind::Expr(_) => StmtShape::Plain,
        StmtKind::Assign(_, _) => StmtShape::Plain,
        StmtKind::If { else_branch, .. } => StmtShape::If { has_else: else_branch is Some },
        StmtKind::While { .. } => StmtShape::While,
        StmtKind::For { .. } => StmtShape::For,
        StmtKind::FuncDef { .. } => StmtShape::FuncDef,
        StmtKind::Invoke { .. } => StmtShape::Invoke,
    }
}

/// Where a statement stands while it runs.
#[derive(Debug, Clone, Copy, PartialEq, Eq, Structural)]
pub enum StmtPhase {
    Start,
    /// the condition of an `if` is being evaluated
    IfTest,
    /// the condition of a `while` is being evaluated
    WhileTest,
    /// the body of a `while` is running
    WhileBody,
    /// the bounds of a `for` are being evaluated
    ForRange,
    /// the body of a `for` runs for `index`; the range ends before `end`
    ForBody { index: i64, end: i64 },
    Done,
}

/// What the evaluator reports back after doing what it was asked.
#[derive(Debug, Clone, Copy, PartialEq, Eq, Structural)]
pub enum StmtEvent {
    /// the statement is about to run
    Begin,
    /// the value of the condition
    Cond(bool),
    /// the bounds of the range, as integers
    Range(i64, i64),
    /// the block that was asked for has run
    BodyDone,
}

/// What the evaluator is asked to do next.
#[derive(Debug, Clone, Copy, PartialEq, Eq, Structural)]
pub enum StmtAction {
    /// evaluate the expression (and store it, for an assignment)
    Eval,
    /// evaluate the condition and report it
    EvalCond,
    /// evaluate the bounds of the range and report them
    EvalRange,
    RunThen,
    RunElse,
    /// run the body of the `while`
    RunBody,
    /// bind the variable of the `for` to this value and run the body
    RunBodyAt(i64),
    /// run the body as an `invocar` block
    Invoke,
    /// the statement is over
    Finish,
}

/// One step of a statement: the cycles it charges, where the statement goes,
/// and what the evaluator does next. An `if` charges `BRANCH_COST` before
/// its condition; a `while` charges `LOOP_TICK_COST` before every test of
/// its condition, the last one included; a `for` charges `LOOP_TICK_COST`
/// before each pass of its body. Nothing else charges here.
pub open spec fn stmt_step(s: StmtShape, at: StmtPhase, ev: StmtEvent) -> (u32, StmtPhase, StmtAction) {
    match (s, at, ev) {
        (StmtShape::Plain, StmtPhase::Start, StmtEvent::Begin) => (0, StmtPhase::Done, StmtAction::Eval),
        (StmtShape::FuncDef, StmtPhase::Start, StmtEvent::Begin) => (0, StmtPhase::Done, StmtAction::Finish),
        (StmtShape::Invoke, StmtPhase::Start, StmtEvent::Begin) => (0, StmtPhase::Done, StmtAction::Invoke),
        (StmtShape::If { .. }, StmtPhase::Start, StmtEvent::Begin) => (
            BRANCH_COST,
            StmtPhase::IfTest,
            StmtAction::EvalCond,
        ),
        (StmtShape::If { has_else }, StmtPhase::IfTest, StmtEvent::Cond(c)) => if c {
            (0, StmtPhase::Done, StmtAction::RunThen)
        } else if has_else {
            (0, StmtPhase::Done, StmtAction::RunElse)
        } else {
            (0, StmtPhase::Done, StmtAction::Finish)
        },
        (StmtShape::While, StmtPhase::Start, StmtEvent::Begin) => (
            LOOP_TICK_COST,
            StmtPhase::WhileTest,
            StmtAction::EvalCond,
        ),
        (StmtShape::While, StmtPhase::WhileTest, StmtEvent::Cond(c)) => if c {
            (0, StmtPhase::WhileBody, StmtAction::RunBody)
        } else {
            (0, StmtPhase::Done, StmtAction::Finish)
        },
        (StmtShape::While, StmtPhase::WhileBody, StmtEvent::BodyDone) => (
            LOOP_TICK_COST,
            StmtPhase::WhileTest,
            StmtAction::EvalCond,
        ),
        (StmtShape::For, StmtPhase::Start, StmtEvent::Begin) => (0, StmtPhase::ForRange, StmtAction::EvalRange),
        (StmtShape::For, StmtPhase::ForRange, StmtEvent::Range(a, b)) => if a < b {
            (LOOP_TICK_COST, StmtPhase::ForBody { index: a, end: b }, StmtAction::RunBodyAt(a))
        } else {
            (0, StmtPhase::Done, StmtAction::Finish)
        },
        (StmtShape::For, StmtPhase::ForBody { index, end }, StmtEvent::BodyDone) => if index + 1 < end {
            (
                LOOP_TICK_COST,
                StmtPhase::ForBody { index: (index + 1) as i64, end },
                StmtAction::RunBodyAt((index + 1) as i64),
            )
        } else {
            (0, StmtPhase::Done, StmtAction::Finish)
        },
        _ => (0, StmtPhase::Done, StmtAction::Finish),
    }
}

fn shape(k: &StmtKind) -> (r: StmtShape)
    ensures
        r == stmt_shape(*k),
{
    match k {
        StmtKind::Expr(_) => StmtShape::Plain,
        StmtKind::Assign(_, _) => StmtShape::Plain,
        StmtKind::If { else_branch, .. } => StmtShape::If { has_else: else_branch.is_some() },
        StmtKind::While { .. } => StmtShape::While,
        StmtKind::For { .. } => StmtShape::For,
        StmtKind::FuncDef { .. } => StmtShape::FuncDef,
        StmtKind::Invoke { .. } => StmtShape::Invoke,
    }
}

fn step_table(s: StmtShape, at: StmtPhase, ev: StmtEvent) -> (r: (u32, StmtPhase, StmtAction))
    ensures
        r == stmt_step(s, at, ev),
{
    match (s, at, ev) {
        (StmtShape::Plain, StmtPhase::Start, StmtEvent::Begin) => (0, StmtPhase::Done, StmtAction::Eval),
        (StmtShape::FuncDef, StmtPhase::Start, StmtEvent::Begin) => (0, StmtPhase::Done, StmtAction::Finish),
        (StmtShape::Invoke, StmtPhase::Start, StmtEvent::Begin) => (0, StmtPhase::Done, StmtAction::Invoke),
        (StmtShape::If { .. }, StmtPhase::Start, StmtEvent::Begin) => (
            BRANCH_COST,
            StmtPhase::IfTest,
            StmtAction::EvalCond,
        ),
        (StmtShape::If { has_else }, StmtPhase::IfTest, StmtEvent::Cond(c)) => if c {
            (0, StmtPhase::Done, StmtAction::RunThen)
        } else if has_else {
            (0, StmtPhase::Done, StmtAction::RunElse)
        } else {
            (0, StmtPhase::Done, StmtAction::Finish)
        },
        (StmtShape::While, StmtPhase::Start, StmtEvent::Begin) => (
            LOOP_TICK_COST,
            StmtPhase::WhileTest,
            StmtAction::EvalCond,
        ),
        (StmtShape::While, StmtPhase::WhileTest, StmtEvent::Cond(c)) => if c {
            (0, StmtPhase::WhileBody, StmtAction::RunBody)
        } else {
            (0, StmtPhase::Done, StmtAction::Finish)
        },
        (StmtShape::While, StmtPhase::WhileBody, StmtEvent::BodyDone) => (
            LOOP_TICK_COST,
            StmtPhase::WhileTest,
            StmtAction::EvalCond,
        ),
        (StmtShape::For, StmtPhase::Start, StmtEvent::Begin) => (0, StmtPhase::ForRange, StmtAction::EvalRange),
        (StmtShape::For, StmtPhase::ForRange, StmtEvent::Range(a, b)) => if a < b {
            (LOOP_TICK_COST, StmtPhase::ForBody { index: a, end: b }, StmtAction::RunBodyAt(a))
        } else {
            (0, StmtPhase::Done, StmtAction::Finish)
        },
        (StmtShape::For, StmtPhase::ForBody { index, end }, StmtEvent::BodyDone) => if index < end && index + 1
            < end {
            (LOOP_TICK_COST, StmtPhase::ForBody { index: index + 1, end }, StmtAction::RunBodyAt(index + 1))
        } else {
            (0, StmtPhase::Done, StmtAction::Finish)
        },
        _ => (0, StmtPhase::Done, StmtAction::Finish),
    }
}

/// One step of `selecionar()`.
#[derive(Debug, Clone, Copy, PartialEq, Eq, Structural)]
pub enum SelectStep {
    /// bind `item` to the candidate at this position and test the predicate
    Examine(usize),
    /// the last candidate examined matched
    Found,
    /// no candidate matched
    NotFound,
}

impl Vm {
    /// Takes one step of a statement of this kind, at `line`: charges what
    /// `stmt_step` says and tells the evaluator what to do next; when the
    /// budget runs out, reports it and spends nothing.
    pub fn step_stmt(&mut self, kind: &StmtKind, line: usize, at: StmtPhase, ev: StmtEvent) -> (r: Result<
        (StmtPhase, StmtAction),
        Signal,
    >)
        requires
            old(self).wf(),
        ensures
            final(self).steps_from(old(self)),
            final(self).wf(),
            ({
                let (cost, next, act) = stmt_step(stmt_shape(*kind), at, ev);
                &&& old(self).cycles_used + cost <= old(self).cycle_budget ==> {
                    &&& r == Ok::<(StmtPhase, StmtAction), Signal>((next, act))
                    &&& final(self).cycles_used == old(self).cycles_used + cost
                    &&& final(self).same_frame(old(self))
                    &&& final(self).same_fight(old(self))
                }
                &&& old(self).cycles_used + cost > old(self).cycle_budget ==> {
                    &&& r matches Err(Signal::Truncated { line: l }) && l == line
                    &&& *final(self) == *old(self)
                }
            }),
    {
        let (cost, next, act) = step_table(shape(kind), at, ev);
        match self.charge(line, cost) {
            Ok(()) => Ok((next, act)),
            Err(e) => Err(e),
        }
    }

    /// One step of `selecionar()` at `line`, with `examined` candidates
    /// already examined out of `candidates`, and whether the last one
    /// examined matched. A match ends the selection; otherwise the next
    /// candidate costs `SELECT_SCAN_COST`, and when none is left the
    /// selection ends empty. The end is recorded in the turn.
    pub fn select_next(&mut self, line: usize, examined: usize, candidates: usize, matched: bool) -> (r: Result<
        SelectStep,
        Signal,
    >)
        requires
            old(self).wf(),
            examined <= candidates,
        ensures
            final(self).steps_from(old(self)),
            final(self).wf(),
            matched || examined == candidates ==> {
                &&& r == Ok::<SelectStep, Signal>(if matched { SelectStep::Found } else { SelectStep::NotFound })
                &&& final(self).cycles_used == old(self).cycles_used
                &&& final(self).same_frame(old(self))
                &&& final(self).player_life == old(self).player_life
                &&& final(self).enemy_life == old(self).enemy_life
                &&& final(self).enemy_inspected == old(self).enemy_inspected
                &&& final(self).shielded == old(self).shielded
                &&& (old(self).dry_run ==> final(self).events@ == old(self).events@)
                &&& (!old(self).dry_run ==> final(self).events@ == old(self).events@.push(
                    TurnEvent::Selected { line, examined, found: matched },
                ))
            },
            !matched && examined < candidates && old(self).cycles_used + SELECT_SCAN_COST <= old(self).cycle_budget
                ==> {
                &&& r == Ok::<SelectStep, Signal>(SelectStep::Examine(examined))
                &&& final(self).cycles_used == old(self).cycles_used + SELECT_SCAN_COST
                &&& final(self).same_frame(old(self))
                &&& final(self).same_fight(old(self))
            },
            !matched && examined < candidates && old(self).cycles_used + SELECT_SCAN_COST > old(self).cycle_budget
                ==> {
                &&& r matches Err(Signal::Truncated { line: l }) && l == line
                &&& *final(self) == *old(self)
            },
    {
        if matched || examined == candidates {
            self.record_selection(line, examined, matched);
            if matched {
                Ok(SelectStep::Found)
            } else {
                Ok(SelectStep::NotFound)
            }
        } else {
            match self.charge(line, SELECT_SCAN_COST) {
                Ok(()) => Ok(SelectStep::Examine(examined)),
                Err(e) => Err(e),
            }
        }
    }
}

// ---------------------------------------------------------------------
// What whole loops cost
// ---------------------------------------------------------------------

/// The cycles that a statement of shape `s` charges along the events `evs`,
/// starting at `at`.
pub open spec fn trace_cost(s: StmtShape, at: StmtPhase, evs: Seq<StmtEvent>) -> nat
    decreases evs.len(),
{
    if evs.len() == 0 {
        0
    } else {
        let (c, next, _) = stmt_step(s, at, evs[0]);
        c as nat + trace_cost(s, next, evs.skip(1))
    }
}

/// `n` passes of a `while`: the condition holds, the body runs.
pub open spec fn while_rounds(n: nat) -> Seq<StmtEvent>
    decreases n,
{
    if n == 0 {
        Seq::empty()
    } else {
        seq![StmtEvent::Cond(true), StmtEvent::BodyDone] + while_rounds((n - 1) as nat)
    }
}

/// The events of a `while` whose body runs `n` times.
pub open spec fn while_trace(n: nat) -> Seq<StmtEvent> {
    seq![StmtEvent::Begin] + while_rounds(n) + seq![StmtEvent::Cond(false)]
}

/// `n` bodies run.
pub open spec fn bodies_done(n: nat) -> Seq<StmtEvent> {
    Seq::new(n, |i: int| StmtEvent::BodyDone)
}

/// The events of a `for a..b` whose body runs for every index of the range.
pub open spec fn for_trace(a: i64, b: i64) -> Seq<StmtEvent> {
    seq![StmtEvent::Begin, StmtEvent::Range(a, b)] + bodies_done(if a < b { (b - a) as nat } else { 0 })
}

proof fn lemma_while_rounds_cost(n: nat)
    ensures
        trace_cost(StmtShape::While, StmtPhase::WhileTest, while_rounds(n) + seq![StmtEvent::Cond(false)]) == n
            * LOOP_TICK_COST,
    decreases n,
{
    let tail = seq![StmtEvent::Cond(false)];
    if n == 0 {
        assert(while_rounds(n) + tail =~= tail);
        assert(tail.skip(1) =~= Seq::<StmtEvent>::empty());
        assert(trace_cost(StmtShape::While, StmtPhase::Done, tail.skip(1)) == 0);
    } else {
        lemma_while_rounds_cost((n - 1) as nat);
        let rest = while_rounds((n - 1) as nat) + tail;
        let all = while_rounds(n) + tail;
        assert(all =~= seq![StmtEvent::Cond(true), StmtEvent::BodyDone] + rest);
        assert(all[0] == StmtEvent::Cond(true));
        assert(all.skip(1) =~= seq![StmtEvent::BodyDone] + rest);
        assert(all.skip(1)[0] == StmtEvent::BodyDone);
        assert(all.skip(1).skip(1) =~= rest);
        assert(trace_cost(StmtShape::While, StmtPhase::WhileBody, all.skip(1)) == LOOP_TICK_COST + trace_cost(
            StmtShape::While,
            StmtPhase::WhileTest,
            rest,
        ));
        assert(trace_cost(StmtShape::While, StmtPhase::WhileTest, all) == trace_cost(
            StmtShape::While,
            StmtPhase::WhileBody,
            all.skip(1),
        ));
        assert((n - 1) * LOOP_TICK_COST + LOOP_TICK_COST == n * LOOP_TICK_COST) by (nonlinear_arith);
    }
}

/// A `while` whose body runs `n` times charges `LOOP_TICK_COST` for each of
/// its `n + 1` tests, the one that ends the loop included.
pub proof fn lemma_while_cost(n: nat)
    ensures
        trace_cost(StmtShape::While, StmtPhase::Start, while_trace(n)) == (n + 1) * LOOP_TICK_COST,
{
    lemma_while_rounds_cost(n);
    let t = while_trace(n);
    assert(t.skip(1) =~= while_rounds(n) + seq![StmtEvent::Cond(false)]);
}

proof fn lemma_for_bodies_cost(index: i64, end: i64)
    requires
        index < end,
    ensures
        trace_cost(StmtShape::For, StmtPhase::ForBody { index, end }, bodies_done((end - index) as nat)) == (end
            - index - 1) * LOOP_TICK_COST,
    decreases end - index,
{
    let m = (end - index) as nat;
    assert(bodies_done(m)[0] == StmtEvent::BodyDone);
    assert(bodies_done(m).skip(1) =~= bodies_done((m - 1) as nat));
    if index + 1 == end {
        assert(bodies_done((m - 1) as nat) =~= Seq::<StmtEvent>::empty());
        assert(trace_cost(StmtShape::For, StmtPhase::Done, bodies_done((m - 1) as nat)) == 0);
    } else {
        lemma_for_bodies_cost((index + 1) as i64, end);
        assert(((end - index - 1) - 1) * LOOP_TICK_COST + LOOP_TICK_COST == (end - index - 1) * LOOP_TICK_COST)
            by (nonlinear_arith);
    }
}

/// A `for a..b` charges `LOOP_TICK_COST` once for each index of the range,
/// and nothing when the range is empty.
pub proof fn lemma_for_cost(a: i64, b: i64)
    ensures
        trace_cost(StmtShape::For, StmtPhase::Start, for_trace(a, b)) == (if a < b {
            b - a
        } else {
            0
        }) * LOOP_TICK_COST,
{
    let t = for_trace(a, b);
    let k: nat = if a < b { (b - a) as nat } else { 0 };
    assert(t[0] == StmtEvent::Begin);
    assert(t.skip(1) =~= seq![StmtEvent::Range(a, b)] + bodies_done(k));
    assert(t.skip(1)[0] == StmtEvent::Range(a, b));
    assert(t.skip(1).skip(1) =~= bodies_done(k));
    if a < b {
        lemma_for_bodies_cost(a, b);
        assert((b - a - 1) * LOOP_TICK_COST + LOOP_TICK_COST == (b - a) * LOOP_TICK_COST) by (nonlinear_arith);
        assert(trace_cost(StmtShape::For, StmtPhase::ForRange, t.skip(1)) == LOOP_TICK_COST + trace_cost(
            StmtShape::For,
            StmtPhase::ForBody { index: a, end: b },
            bodies_done(k),
        ));
    } else {
        assert(bodies_done(k) =~= Seq::<StmtEvent>::empty());
        assert(trace_cost(StmtShape::For, StmtPhase::Done, bodies_done(k)) == 0);
        assert(trace_cost(StmtShape::For, StmtPhase::ForRange, t.skip(1)) == 0);
    }
    assert(trace_cost(StmtShape::For, StmtPhase::Start, t) == trace_cost(
        StmtShape::For,
        StmtPhase::ForRange,
        t.skip(1),
    ));
}

/// An `if` runs the branch its condition picks: the `then` block exactly
/// when the condition holds, the `else` block exactly when it does not and
/// there is one, and nothing otherwise; the test itself charges nothing
/// more and ends the statement's stepping once the branch has run.
pub proof fn lemma_if_runs_the_chosen_branch(has_else: bool, c: bool)
    ensures
        ({
            let (cost, next, act) = stmt_step(StmtShape::If { has_else }, StmtPhase::IfTest, StmtEvent::Cond(c));
            &&& (act == StmtAction::RunThen <==> c)
            &&& (act == StmtAction::RunElse <==> (!c && has_else))
            &&& (act == StmtAction::Finish <==> (!c && !has_else))
            &&& cost == 0
            &&& next == StmtPhase::Done
        }),
        stmt_step(StmtShape::If { has_else }, StmtPhase::Start, StmtEvent::Begin) == (
            BRANCH_COST,
            StmtPhase::IfTest,
            StmtAction::EvalCond,
        ),
{
}

/// A `while` runs its body exactly while the condition holds, and a `for`
/// runs its body once for each index of its range, in order.
pub proof fn lemma_loops_run_their_bodies(c: bool, a: i64, b: i64, i: i64)
    ensures
        (stmt_step(StmtShape::While, StmtPhase::WhileTest, StmtEvent::Cond(c)).2 == StmtAction::RunBody) <==> c,
        stmt_step(StmtShape::For, StmtPhase::ForRange, StmtEvent::Range(a, b)).2 == (if a < b {
            StmtAction::RunBodyAt(a)
        } else {
            StmtAction::Finish
        }),
        a <= i && i + 1 < b ==> stmt_step(StmtShape::For, StmtPhase::ForBody { index: i, end: b }, StmtEvent::BodyDone).2
            == StmtAction::RunBodyAt((i + 1) as i64),
        i + 1 >= b ==> stmt_step(StmtShape::For, StmtPhase::ForBody { index: i, end: b }, StmtEvent::BodyDone).2
            == StmtAction::Finish,
{
}

/// The shape of a statement follows its kind: an `if` has an `else`
/// exactly when one was written.
pub proof fn lemma_if_shape(k: StmtKind)
    ensures
        k matches StmtKind::If { else_branch, .. } ==> stmt_shape(k) == (StmtShape::If { has_else: else_branch is Some }),
{
}

/// A function definition charges nothing, whatever happens around it.
pub proof fn lemma_funcdef_free(at: StmtPhase, ev: StmtEvent)
    ensures
        stmt_step(StmtShape::FuncDef, at, ev).0 == 0,
{
}

} // verus!
