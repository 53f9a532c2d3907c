//! The part of a duel turn that does not depend on the script's number
//! arithmetic: the cycle budget and its accounting, the `invocar` sub-budget,
//! the depth of player functions, what each native action does to the fight,
//! how an attack resolves against the monster's weakness, and how the turn is
//! settled (the monster's blow of the turn, the bonus strike).
//!
//! A turn runs in two passes: a dry run that only validates (and so never
//! touches anybody's life), then the real one. The expression evaluator that
//! walks the tree drives a `Vm` through both.

use vstd::prelude::*;
use crate::inventory::{class_affinity, Loadout, PlayerClass};
use crate::monsters::{
    charged, element_of, posture_toggled, posture_word, Element, MonsterState, Posture, Weakness, CHARGE_PER_TURN,
};
use crate::numtext::{nat_digits, u64_text};
use crate::script::api::{
    call_cost, native_cost, CLASS_BONUS_DAMAGE, INVOKE_BUDGET, INVOKE_COST, MAX_CALL_DEPTH,
    MAX_INVOCATIONS_PER_TURN, STMT_SIZE_COST, TRUNCATE_DAMAGE_MULTIPLIER, USER_CALL_COST,
};
use crate::script::ast::{stmt_view, stmts_view, SStmt, SStmtKind, Stmt, StmtKind};
use crate::script::error::ScriptError;
use crate::script::value::{kind_from_word, kind_label, Item, ItemKind, Target};
use crate::text::{lowercase, push_chars, push_str, str_eq, to_lowercase};

verus! {

pub const BASE_ATTACK_DAMAGE: i32 = 12;

pub const HEAL_AMOUNT: i32 = 15;

// ---------------------------------------------------------------------
// Size of the written program
// ---------------------------------------------------------------------

/// How many statements a statement is, counting every nested body once,
/// however often it runs.
pub open spec fn stmt_size(s: SStmt) -> nat
    decreases s,
{
    1 + match s.kind {
        SStmtKind::Expr(_) => 0nat,
        SStmtKind::Assign(_, _) => 0nat,
        SStmtKind::If(_, t, e) => block_size(t) + match e {
            Some(b) => block_size(b),
            None => 0nat,
        },
        SStmtKind::While(_, b) => block_size(b),
        SStmtKind::For(_, _, _, b) => block_size(b),
        SStmtKind::FuncDef(_, b) => block_size(b),
        SStmtKind::Invoke(_, b) => block_size(b),
    }
}

/// How many statements a block is.
pub open spec fn block_size(ss: Seq<SStmt>) -> nat
    decreases ss,
{
    if ss.len() == 0 {
        0
    } else {
        block_size(ss.drop_last()) + stmt_size(ss.last())
    }
}

proof fn lemma_stmts_view_take(s: Seq<Stmt>, i: int)
    requires
        0 <= i < s.len(),
    ensures
        stmts_view(s.take(i + 1)) == stmts_view(s.take(i)).push(stmt_view(s[i])),
{
    assert(s.take(i + 1).drop_last() =~= s.take(i));
}

/// The size of one statement, or `None` when it does not fit in a `u32`.
pub fn count_stmt(s: &Stmt) -> (r: Option<u32>)
    ensures
        match r {
            Some(n) => n == stmt_size(stmt_view(*s)),
            None => stmt_size(stmt_view(*s)) > u32::MAX,
        },
    decreases s,
{
    let inner: Option<u32> = match &s.kind {
        StmtKind::Expr(_) => Some(0),
        StmtKind::Assign(_, _) => Some(0),
        StmtKind::If { then_branch, else_branch, .. } => {
            let t = count_stmts(then_branch);
            let e = match else_branch {
                Some(b) => count_stmts(b),
                None => Some(0),
            };
            match (t, e) {
                (Some(a), Some(b)) => a.checked_add(b),
                _ => None,
            }
        },
        StmtKind::While { body, .. } => count_stmts(body),
        StmtKind::For { body, .. } => count_stmts(body),
        StmtKind::FuncDef { body, .. } => count_stmts(body),
        StmtKind::Invoke { body, .. } => count_stmts(body),
    };
    match inner {
        Some(n) => n.checked_add(1),
        None => None,
    }
}

/// The size of a block, or `None` when it does not fit in a `u32`.
pub fn count_stmts(stmts: &Vec<Stmt>) -> (r: Option<u32>)
    ensures
        match r {
            Some(n) => n == block_size(stmts_view(stmts@)),
            None => block_size(stmts_view(stmts@)) > u32::MAX,
        },
    decreases stmts,
{
    let n = stmts.len();
    let mut acc: u32 = 0;
    let mut i: usize = 0;
    while i < n
        invariant
            n == stmts@.len(),
            i <= n,
            acc == block_size(stmts_view(stmts@.take(i as int))),
        decreases n - i,
    {
        proof {
            lemma_stmts_view_take(stmts@, i as int);
            assert(stmts_view(stmts@.take(i as int + 1)).drop_last() =~= stmts_view(stmts@.take(i as int)));
            assert(decreases_to!(stmts => stmts@[i as int]));
        }
        let c = count_stmt(&stmts[i]);
        match c {
            Some(k) => match acc.checked_add(k) {
                Some(t) => {
                    acc = t;
                },
                None => {
                    proof {
                        lemma_view_take(stmts@, i as int + 1);
                        lemma_block_size_prefix(stmts_view(stmts@), i as int + 1);
                    }
                    return None;
                },
            },
            None => {
                proof {
                    lemma_view_take(stmts@, i as int + 1);
                    lemma_block_size_prefix(stmts_view(stmts@), i as int + 1);
                }
                return None;
            },
        }
        i += 1;
    }
    assert(stmts@.take(n as int) =~= stmts@);
    Some(acc)
}

proof fn lemma_view_take(s: Seq<Stmt>, i: int)
    requires
        0 <= i <= s.len(),
    ensures
        stmts_view(s.take(i)) == stmts_view(s).take(i),
        stmts_view(s).len() == s.len(),
    decreases s.len() - i,
{
    if i < s.len() {
        lemma_view_take(s, i + 1);
        lemma_stmts_view_take(s, i);
        assert(stmts_view(s).take(i + 1).drop_last() =~= stmts_view(s).take(i));
    } else {
        lemma_view_len(s);
        assert(s.take(i) =~= s);
        assert(stmts_view(s).take(i) =~= stmts_view(s));
    }
}

proof fn lemma_view_len(s: Seq<Stmt>)
    ensures
        stmts_view(s).len() == s.len(),
    decreases s.len(),
{
    if s.len() > 0 {
        lemma_view_len(s.drop_last());
    }
}

/// A block is at least as big as any of its prefixes.
proof fn lemma_block_size_prefix(ss: Seq<SStmt>, i: int)
    requires
        0 <= i <= ss.len(),
    ensures
        block_size(ss.take(i)) <= block_size(ss),
    decreases ss.len() - i,
{
    if i < ss.len() {
        lemma_block_size_prefix(ss, i + 1);
        assert(ss.take(i + 1).drop_last() =~= ss.take(i));
    } else {
        assert(ss.take(i) =~= ss);
    }
}

// ---------------------------------------------------------------------
// Functions defined by the player
// ---------------------------------------------------------------------

pub open spec fn native_clash_msg(name: Seq<char>) -> Seq<char> {
    "'"@ + name + "' ja e um ritual conhecido pela Piramide - escolha outro nome pro seu 'func "@ + name
        + "()'"@
}

pub open spec fn duplicate_func_msg(name: Seq<char>) -> Seq<char> {
    "'"@ + name + "' ja ecoa neste script - duas func com o mesmo nome confundem a Piramide, escolha outro"@
}

/// The name that a statement defines, when it is a `func`.
pub open spec fn def_name(s: SStmt) -> Option<Seq<char>> {
    match s.kind {
        SStmtKind::FuncDef(name, _) => Some(name),
        _ => None,
    }
}

/// Whether `name` is among the collected functions.
pub open spec fn has_func(fs: Seq<(Seq<char>, int)>, name: Seq<char>) -> bool {
    exists|k: int| 0 <= k < fs.len() && #[trigger] fs[k].0 == name
}

/// The functions defined among the first `n` top-level statements, each
/// with the position of its definition, or the first definition that is
/// refused (its line and the message).
pub open spec fn collect_upto(prog: Seq<SStmt>, n: nat) -> Result<Seq<(Seq<char>, int)>, (int, Seq<char>)>
    decreases n,
{
    if n == 0 {
        Ok(Seq::empty())
    } else {
        match collect_upto(prog, (n - 1) as nat) {
            Err(e) => Err(e),
            Ok(fs) => {
                let s = prog[n - 1];
                match s.kind {
                    SStmtKind::FuncDef(name, _) => if native_cost(name) is Some {
                        Err((s.line, native_clash_msg(name)))
                    } else if has_func(fs, name) {
                        Err((s.line, duplicate_func_msg(name)))
                    } else {
                        Ok(fs.push((name, n - 1)))
                    },
                    _ => Ok(fs),
                }
            },
        }
    }
}

/// All functions of the program, collected before anything runs: this is
/// what lets a function be called above its definition.
pub open spec fn collected_funcs(prog: Seq<SStmt>) -> Result<Seq<(Seq<char>, int)>, (int, Seq<char>)> {
    collect_upto(prog, prog.len())
}

pub open spec fn funcs_view(v: Seq<(String, usize)>) -> Seq<(Seq<char>, int)> {
    v.map_values(|p: (String, usize)| (p.0@, p.1 as int))
}

fn func_known(fs: &Vec<(String, usize)>, name: &str) -> (r: bool)
    ensures
        r == has_func(funcs_view(fs@), name@),
{
    let n = fs.len();
    let mut i: usize = 0;
    while i < n
        invariant
            n == fs@.len(),
            i <= n,
            forall|k: int| 0 <= k < i ==> fs@[k].0@ != name@,
        decreases n - i,
    {
        if str_eq(fs[i].0.as_str(), name) {
            assert(funcs_view(fs@)[i as int].0 == name@);
            return true;
        }
        i += 1;
    }
    assert forall|k: int| 0 <= k < funcs_view(fs@).len() implies #[trigger] funcs_view(fs@)[k].0 != name@ by {
        assert(funcs_view(fs@)[k].0 == fs@[k].0@);
    }
    false
}

fn clash_message(name: &str) -> (r: String)
    ensures
        r@ == native_clash_msg(name@),
{
    let mut m = String::new();
    push_str(&mut m, "'");
    push_str(&mut m, name);
    push_str(&mut m, "' ja e um ritual conhecido pela Piramide - escolha outro nome pro seu 'func ");
    push_str(&mut m, name);
    push_str(&mut m, "()'");
    m
}

fn duplicate_message(name: &str) -> (r: String)
    ensures
        r@ == duplicate_func_msg(name@),
{
    let mut m = String::new();
    push_str(&mut m, "'");
    push_str(&mut m, name);
    push_str(
        &mut m,
        "' ja ecoa neste script - duas func com o mesmo nome confundem a Piramide, escolha outro",
    );
    m
}

/// Collects every `func` of the top level of the program, by name, with the
/// position of its definition. A name that is already a native action, or
/// that was already defined, is refused at the line of the definition.
pub fn collect_funcs(program: &Vec<Stmt>) -> (r: Result<Vec<(String, usize)>, ScriptError>)
    ensures
        match (r, collected_funcs(stmts_view(program@))) {
            (Ok(v), Ok(fs)) => funcs_view(v@) == fs,
            (Err(e), Err((line, msg))) => e.line == line && e.message@ == msg,
            _ => false,
        },
{
    let ghost prog = stmts_view(program@);
    proof { lemma_view_len(program@); }
    let n = program.len();
    let mut fs: Vec<(String, usize)> = Vec::new();
    assert(funcs_view(fs@) =~= Seq::<(Seq<char>, int)>::empty());
    let mut i: usize = 0;
    while i < n
        invariant
            n == program@.len(),
            prog == stmts_view(program@),
            prog.len() == n,
            i <= n,
            collect_upto(prog, i as nat) == Ok::<Seq<(Seq<char>, int)>, (int, Seq<char>)>(funcs_view(fs@)),
        decreases n - i,
    {
        proof {
            lemma_view_take(program@, n as int);
            lemma_view_index(program@, i as int);
        }
        let s = &program[i];
        match &s.kind {
            StmtKind::FuncDef { name, .. } => {
                proof { lemma_collect_err_stays(prog, (i + 1) as nat, n as nat); }
                if call_cost(name.as_str()).is_some() {
                    return Err(ScriptError::new(s.line, clash_message(name.as_str())));
                }
                if func_known(&fs, name.as_str()) {
                    return Err(ScriptError::new(s.line, duplicate_message(name.as_str())));
                }
                let ghost before = fs@;
                fs.push((name.clone(), i));
                proof {
                    assert(funcs_view(fs@) =~= funcs_view(before).push((name@, i as int)));
                }
            },
            _ => {},
        }
        i += 1;
    }
    Ok(fs)
}

proof fn lemma_collect_err_stays(prog: Seq<SStmt>, i: nat, n: nat)
    requires
        i <= n <= prog.len(),
    ensures
        collect_upto(prog, i) is Err ==> collect_upto(prog, n) == collect_upto(prog, i),
    decreases n - i,
{
    if i < n {
        lemma_collect_err_stays(prog, i, (n - 1) as nat);
    }
}

proof fn lemma_view_index(s: Seq<Stmt>, i: int)
    requires
        0 <= i < s.len(),
    ensures
        stmts_view(s)[i] == stmt_view(s[i]),
        stmts_view(s).len() == s.len(),
    decreases s.len(),
{
    lemma_view_len(s);
    if i < s.len() - 1 {
        lemma_view_index(s.drop_last(), i);
    }
}

/// What collection promises: the collected names are distinct, none of them
/// is a native action, each points at a definition of that name at the top
/// level, and every top-level definition was collected.
pub proof fn lemma_collected_funcs(prog: Seq<SStmt>)
    requires
        collected_funcs(prog) is Ok,
    ensures
        ({
            let fs = collected_funcs(prog)->Ok_0;
            &&& forall|a: int, b: int| 0 <= a < b < fs.len() ==> #[trigger] fs[a].0 != #[trigger] fs[b].0
            &&& forall|k: int| 0 <= k < fs.len() ==> native_cost(#[trigger] fs[k].0) is None
            &&& forall|k: int|
                0 <= k < fs.len() ==> 0 <= #[trigger] fs[k].1 < prog.len() && def_name(prog[fs[k].1]) == Some(fs[k].0)
            &&& forall|j: int|
                0 <= j < prog.len() && def_name(#[trigger] prog[j]) is Some ==> has_func(fs, def_name(prog[j])->Some_0)
        }),
{
    lemma_collect_upto(prog, prog.len());
}

/// Whether the top-level definition at `j` is refused: its name is a native
/// action, or an earlier top-level definition already has it.
pub open spec fn refused_def(prog: Seq<SStmt>, j: int) -> bool {
    match def_name(prog[j]) {
        Some(name) => native_cost(name) is Some || exists|i: int| 0 <= i < j && #[trigger] def_name(prog[i]) == Some(name),
        None => false,
    }
}

/// Collection fails exactly when some definition is refused: a `func`
/// named like a native action, or a second `func` with a name already
/// defined.
pub proof fn lemma_collect_funcs_refuses(prog: Seq<SStmt>)
    ensures
        collected_funcs(prog) is Err <==> exists|j: int| 0 <= j < prog.len() && #[trigger] refused_def(prog, j),
{
    lemma_collect_err_iff(prog, prog.len());
}

proof fn lemma_collect_err_iff(prog: Seq<SStmt>, n: nat)
    requires
        n <= prog.len(),
    ensures
        collect_upto(prog, n) is Err <==> exists|j: int| 0 <= j < n && #[trigger] refused_def(prog, j),
    decreases n,
{
    if n > 0 {
        lemma_collect_err_iff(prog, (n - 1) as nat);
        let last = (n - 1) as int;
        match collect_upto(prog, (n - 1) as nat) {
            Err(_) => {
                let j = choose|j: int| 0 <= j < n - 1 && #[trigger] refused_def(prog, j);
                assert(0 <= j < n && refused_def(prog, j));
            },
            Ok(fs) => {
                lemma_collect_upto(prog, (n - 1) as nat);
                assert forall|j: int| 0 <= j < n - 1 implies !#[trigger] refused_def(prog, j) by {}
                match def_name(prog[last]) {
                    Some(name) => {
                        if has_func(fs, name) {
                            let k = choose|k: int| 0 <= k < fs.len() && #[trigger] fs[k].0 == name;
                            let i = fs[k].1;
                            assert(0 <= i < last && def_name(prog[i]) == Some(name));
                            assert(refused_def(prog, last));
                        } else {
                            if exists|i: int| 0 <= i < last && #[trigger] def_name(prog[i]) == Some(name) {
                                let i = choose|i: int| 0 <= i < last && #[trigger] def_name(prog[i]) == Some(name);
                                assert(def_name(prog[i]) is Some);
                                assert(has_func(fs, def_name(prog[i])->Some_0));
                            }
                        }
                        if refused_def(prog, last) {
                            assert(0 <= last < n && refused_def(prog, last));
                        }
                        assert forall|j: int| 0 <= j < n && #[trigger] refused_def(prog, j) implies j == last by {}
                    },
                    None => {
                        assert forall|j: int| 0 <= j < n implies !#[trigger] refused_def(prog, j) by {
                            if j == last {
                            }
                        }
                    },
                }
            },
        }
    }
}

proof fn lemma_collect_upto(prog: Seq<SStmt>, n: nat)
    requires
        n <= prog.len(),
        collect_upto(prog, n) is Ok,
    ensures
        ({
            let fs = collect_upto(prog, n)->Ok_0;
            &&& forall|a: int, b: int| 0 <= a < b < fs.len() ==> #[trigger] fs[a].0 != #[trigger] fs[b].0
            &&& forall|k: int| 0 <= k < fs.len() ==> native_cost(#[trigger] fs[k].0) is None
            &&& forall|k: int|
                0 <= k < fs.len() ==> 0 <= #[trigger] fs[k].1 < n && def_name(prog[fs[k].1]) == Some(fs[k].0)
            &&& forall|j: int|
                0 <= j < n && def_name(#[trigger] prog[j]) is Some ==> has_func(fs, def_name(prog[j])->Some_0)
        }),
    decreases n,
{
    if n > 0 {
        lemma_collect_upto(prog, (n - 1) as nat);
        let fs0 = collect_upto(prog, (n - 1) as nat)->Ok_0;
        let fs = collect_upto(prog, n)->Ok_0;
        let s = prog[n - 1];
        match s.kind {
            SStmtKind::FuncDef(name, _) => {
                assert(fs == fs0.push((name, n - 1)));
                assert(!has_func(fs0, name));
                assert forall|j: int|
                    0 <= j < n && def_name(#[trigger] prog[j]) is Some implies has_func(fs, def_name(prog[j])->Some_0) by {
                    if j < n - 1 {
                        let nm = prog[j].kind->FuncDef_0;
                        let k = choose|k: int| 0 <= k < fs0.len() && #[trigger] fs0[k].0 == nm;
                        assert(fs[k].0 == nm);
                    } else {
                        assert(fs[fs0.len() as int].0 == name);
                    }
                }
            },
            _ => {
                assert forall|j: int|
                    0 <= j < n && def_name(#[trigger] prog[j]) is Some implies has_func(fs, def_name(prog[j])->Some_0) by {
                    if j == n - 1 {
                    }
                }
            },
        }
    }
}

// ---------------------------------------------------------------------
// What a turn records
// ---------------------------------------------------------------------

#[derive(Debug, Clone, PartialEq)]
pub enum TurnEvent {
    Attacked { line: usize, item: Item, damage: i32, effective: bool },
    Defended { line: usize, item: Item },
    Inspected { line: usize },
    Healed { line: usize, amount: i32 },
    Waited { line: usize },
    BonusStrike { damage: i32 },
    /// The monster's blow. It comes every turn; `truncated` tells whether the
    /// script ran over its budget, which doubles the blow.
    CounterAttack { damage: i32, blocked: bool, special: bool, truncated: bool },
    Truncated { line: usize },
    /// `selecionar()`: how many items of the bag were examined before it
    /// stopped, and whether one matched.
    Selected { line: usize, examined: usize, found: bool },
}

#[derive(Debug, Clone, PartialEq)]
pub struct TurnResult {
    pub events: Vec<TurnEvent>,
    pub cycles_used: u32,
    pub cycle_budget: u32,
    pub truncated: bool,
    pub player_life: i32,
    pub enemy_life: i32,
}

/// What a validation pass reports: no life changes, only the cycles the
/// script would spend and whether it would run over.
#[derive(Debug, Clone, Copy, PartialEq, Eq)]
pub struct ProbeResult {
    pub cycles_used: u32,
    pub truncated: bool,
}

/// Why the execution of a script stopped early: a real error (the turn is
/// not spent), or the budget ran out (the turn goes on to its settlement).
#[derive(Debug)]
pub enum Signal {
    Error(ScriptError),
    Truncated { line: usize },
}

/// A value read from a field: `inimigo.vida`, `inimigo.postura`, `item.nome`.
#[derive(Debug, PartialEq)]
pub enum FieldValue {
    Number(i64),
    Text(String),
}

/// An argument handed to a native action: an item, or something else,
/// known by the name of its type.
#[derive(Debug)]
pub enum ArgValue {
    Item(Item),
    Other(&'static str),
}

/// What a name in a call resolves to: a native action with its cost, or a
/// function of the player, by the position of its definition.
#[derive(Debug, Clone, Copy, PartialEq, Eq)]
pub enum Callee {
    Native(u32),
    User(usize),
}

/// Names that mean something before any variable: `eu`, `inimigo`, and
/// the item collections (`espada`, `magia`, ...).
#[derive(Debug, Clone, Copy, PartialEq, Eq)]
pub enum Builtin {
    Entity(Target),
    Collection(ItemKind),
}

// ---------------------------------------------------------------------
// The arithmetic of a turn stays inside `i32`
// ---------------------------------------------------------------------

/// Whether `v` is a value of `i32`: the turn's arithmetic is done in `i32`,
/// and every step states what must fit there.
pub open spec fn fits(v: int) -> bool {
    i32::MIN <= v <= i32::MAX
}

fn fits_i64(v: i64) -> (r: bool)
    ensures
        r == fits(v as int),
{
    i32::MIN as i64 <= v && v <= i32::MAX as i64
}

pub open spec fn max0(v: int) -> int {
    if v > 0 {
        v
    } else {
        0
    }
}

pub open spec fn min_int(a: int, b: int) -> int {
    if a < b {
        a
    } else {
        b
    }
}

// ---------------------------------------------------------------------
// Bonuses and the resolution of an attack
// ---------------------------------------------------------------------

/// The bonus of the equipped item of the attacking item's kind, when it is
/// the same item (names compared without case).
pub open spec fn equipped_bonus_of(lo: Option<Loadout>, item: Item) -> int {
    match lo {
        Some(l) => match l.slot_of(item.kind) {
            Some(eq) => if lowercase(eq.name@) == lowercase(item.name@) {
                eq.bonus_damage as int
            } else {
                0
            },
            None => 0,
        },
        None => 0,
    }
}

/// The class bonus: the attacking item's kind is the class's affinity.
pub open spec fn class_bonus_of(c: Option<PlayerClass>, k: ItemKind) -> int {
    match c {
        Some(c) => if class_affinity(c) == k {
            CLASS_BONUS_DAMAGE as int
        } else {
            0
        },
        None => 0,
    }
}

pub open spec fn full_hit() -> (int, bool) {
    (BASE_ATTACK_DAMAGE as int, true)
}

/// The reduced hit, an eighth of the base damage.
pub open spec fn reduced_hit() -> (int, bool) {
    (BASE_ATTACK_DAMAGE as int / 8, false)
}

pub open spec fn sat_sub(a: int, b: int) -> int {
    if a >= b {
        a - b
    } else {
        0
    }
}

// ---------------------------------------------------------------------
// The blow of the turn
// ---------------------------------------------------------------------

/// The monster's blow before any defence: five halves of the base damage
/// when the charge is full.
pub open spec fn turn_base(base: int, special: bool) -> int {
    if special {
        half(base * 5)
    } else {
        base
    }
}

/// Half of `v`, rounded toward zero, as `i32` division does it.
pub open spec fn half(v: int) -> int {
    if v >= 0 {
        v / 2
    } else {
        -((-v) / 2)
    }
}

/// The blow that lands: doubled when the script ran over budget, then
/// halved by a shield and reduced by the shield's bonus, never below zero.
pub open spec fn blow_damage(base: int, special: bool, truncated: bool, shield: Option<int>) -> int {
    let tb = turn_base(base, special);
    let pre = if truncated {
        tb * TRUNCATE_DAMAGE_MULTIPLIER
    } else {
        tb
    };
    match shield {
        Some(bonus) => max0(half(pre) - bonus),
        None => pre,
    }
}

/// Running over budget always costs more life than finishing the script,
/// shielded or not, special blow or not, as long as the blow is not nothing
/// and the shield's bonus does not absorb the whole blow.
pub proof fn lemma_truncating_is_worse(base: int, special: bool, shield: Option<int>, life: int)
    requires
        base > 0,
        shield matches Some(b) ==> 0 <= b < turn_base(base, special),
        life > blow_damage(base, special, false, shield),
    ensures
        blow_damage(base, special, true, shield) > blow_damage(base, special, false, shield),
        max0(life - blow_damage(base, special, true, shield)) < max0(life - blow_damage(base, special, false, shield)),
{
}

/// A shield never makes the blow hurt more.
pub proof fn lemma_shield_never_hurts(base: int, special: bool, truncated: bool, bonus: int)
    requires
        base >= 0,
        bonus >= 0,
    ensures
        blow_damage(base, special, truncated, Some(bonus)) <= blow_damage(base, special, truncated, None),
        blow_damage(base, special, truncated, Some(bonus)) >= 0,
{
}

/// An event that a step of the script records: an action or a selection,
/// never a cut, the monster's blow or the bonus strike, which only the
/// settlement records.
pub open spec fn step_event(e: TurnEvent) -> bool {
    !(e is Truncated) && !(e is CounterAttack) && !(e is BonusStrike)
}

pub open spec fn slot_nonneg(o: Option<crate::inventory::Item>) -> bool {
    match o {
        Some(it) => it.bonus_damage >= 0,
        None => true,
    }
}

/// Every equipped item adds a bonus of zero or more.
pub open spec fn nonneg_bonuses(lo: Option<Loadout>) -> bool {
    match lo {
        Some(l) => slot_nonneg(l.arma) && slot_nonneg(l.magia) && slot_nonneg(l.escudo) && slot_nonneg(l.pocao),
        None => true,
    }
}

/// No event of the turn so far is a cut.
pub open spec fn no_cut(events: Seq<TurnEvent>) -> bool {
    forall|i: int| 0 <= i < events.len() ==> !(#[trigger] events[i] is Truncated)
}

/// Whether some blow among the events was the special one.
pub open spec fn has_special_blow(events: Seq<TurnEvent>) -> bool {
    exists|i: int| 0 <= i < events.len() && (#[trigger] events[i] matches TurnEvent::CounterAttack { special: true, .. })
}

// ---------------------------------------------------------------------
// Messages
// ---------------------------------------------------------------------

pub open spec fn arity_msg(name: Seq<char>, n: nat, got: nat) -> Seq<char> {
    "'"@ + name + "' espera "@ + nat_digits(n) + " argumento(s), recebeu "@ + nat_digits(got)
}

/// The character `"`, which the messages quote.
pub const DOUBLE_QUOTE: char = '\u{22}';

pub open spec fn not_item_msg(name: Seq<char>, got: Seq<char>) -> Seq<char> {
    "'"@ + name + "' espera um item (ex.: espada["@ + seq![DOUBLE_QUOTE] + "fogo"@ + seq![DOUBLE_QUOTE]
        + "]), recebeu "@ + got
}

pub open spec fn invocation_limit_msg() -> Seq<char> {
    "limite de invocacoes por turno excedido (maximo "@ + nat_digits(MAX_INVOCATIONS_PER_TURN as nat) + ")"@
}

pub open spec fn depth_msg(name: Seq<char>) -> Seq<char> {
    "'"@ + name + "': profundidade maxima de chamada excedida (limite "@ + nat_digits(MAX_CALL_DEPTH as nat) + ")"@
}

pub open spec fn no_args_msg(name: Seq<char>, got: nat) -> Seq<char> {
    "funcao '"@ + name + "' nao recebe argumento, mas foi chamada com "@ + nat_digits(got)
}

pub open spec fn unknown_call_msg(name: Seq<char>) -> Seq<char> {
    "funcao desconhecida: '"@ + name + "'"@
}

pub open spec fn unknown_field_msg(f: Seq<char>) -> Seq<char> {
    "campo desconhecido: '"@ + f + "'"@
}

pub open spec fn unknown_item_field_msg(f: Seq<char>) -> Seq<char> {
    "campo desconhecido em item: '"@ + f + "'"@
}

/// Whether a native action takes an item (the others take nothing).
pub open spec fn takes_item(name: Seq<char>) -> bool {
    name == "atacar"@ || name == "defender"@ || name == "curar"@
}

/// The item a native action got, `None` for the actions that take nothing,
/// or the message of a wrong call.
pub open spec fn native_arg(name: Seq<char>, args: Seq<ArgValue>) -> Result<Option<Item>, Seq<char>> {
    if takes_item(name) {
        if args.len() != 1 {
            Err(arity_msg(name, 1, args.len()))
        } else {
            match args[0] {
                ArgValue::Item(it) => Ok(Some(it)),
                ArgValue::Other(t) => Err(not_item_msg(name, t@)),
            }
        }
    } else if args.len() != 0 {
        Err(arity_msg(name, 0, args.len()))
    } else {
        Ok(None)
    }
}

/// What a field reads as, in the specification.
pub enum FieldSpec {
    Number(int),
    Text(Seq<char>),
}

pub open spec fn field_matches(r: Result<FieldValue, Signal>, s: Result<FieldSpec, Seq<char>>, line: usize) -> bool {
    match (r, s) {
        (Ok(FieldValue::Number(a)), Ok(FieldSpec::Number(b))) => a == b,
        (Ok(FieldValue::Text(a)), Ok(FieldSpec::Text(b))) => a@ == b,
        (Err(Signal::Error(e)), Err(m)) => e.line == line && e.message@ == m,
        _ => false,
    }
}

fn error_at(line: usize, message: String) -> (r: Signal)
    ensures
        r matches Signal::Error(e) && e.line == line && e.message == message,
{
    Signal::Error(ScriptError::new(line, message))
}

fn quoted(before: &str, name: &str, after: &str) -> (r: String)
    ensures
        r@ == before@ + name@ + after@,
{
    let mut m = String::new();
    push_str(&mut m, before);
    push_str(&mut m, name);
    push_str(&mut m, after);
    m
}

fn count_text(n: usize) -> (r: Vec<char>)
    ensures
        r@ == nat_digits(n as nat),
{
    u64_text(n as u64)
}

// ---------------------------------------------------------------------
// The machine of a turn
// ---------------------------------------------------------------------

/// The state of one pass over a script: cycles, the nesting of player
/// functions and of `invocar` blocks, and the fight as the script sees it.
/// The variables and the arithmetic of the script live with the evaluator.
pub struct Vm {
    pub cycles_used: u32,
    pub cycle_budget: u32,
    /// the validation pass: checks everything, changes nothing in the fight
    pub dry_run: bool,
    pub events: Vec<TurnEvent>,
    /// how many player functions are running, one inside the other
    pub depth: usize,
    pub invocations_this_turn: usize,
    pub player_life: i32,
    pub player_max_life: i32,
    pub enemy_life: i32,
    pub enemy_max_life: i32,
    pub enemy_posture: Posture,
    pub enemy_weakness: Weakness,
    pub enemy_inspected: bool,
    /// the item of the last `defender()` of the turn
    pub shielded: Option<Item>,
    pub loadout: Option<Loadout>,
    pub player_class: Option<PlayerClass>,
    /// the part of `cycles_used` that paid for the size of the written
    /// program, charged once at the start
    pub size_charge: u32,
}

impl Vm {
    pub open spec fn wf(&self) -> bool {
        &&& self.cycles_used <= self.cycle_budget
        &&& self.cycle_budget <= i32::MAX
        &&& self.depth <= MAX_CALL_DEPTH
        &&& self.invocations_this_turn <= MAX_INVOCATIONS_PER_TURN
    }

    /// Everything but the cycles and the fight is as in `o`.
    pub open spec fn same_frame(&self, o: &Vm) -> bool {
        &&& self.cycle_budget == o.cycle_budget
        &&& self.dry_run == o.dry_run
        &&& self.depth == o.depth
        &&& self.invocations_this_turn == o.invocations_this_turn
        &&& self.player_max_life == o.player_max_life
        &&& self.enemy_max_life == o.enemy_max_life
        &&& self.enemy_posture == o.enemy_posture
        &&& self.enemy_weakness == o.enemy_weakness
        &&& self.loadout == o.loadout
        &&& self.player_class == o.player_class
        &&& self.size_charge == o.size_charge
    }

    /// The fight and its record are as in `o`.
    pub open spec fn same_fight(&self, o: &Vm) -> bool {
        &&& self.player_life == o.player_life
        &&& self.enemy_life == o.enemy_life
        &&& self.enemy_inspected == o.enemy_inspected
        &&& self.shielded == o.shielded
        &&& self.events@ == o.events@
    }

    /// What one step of a pass may do, as every method of the machine makes
    /// it: the maximum life, the equipment and the class stay; the events
    /// so far stay and only actions and selections are added; the monster's
    /// life never grows nor goes below zero, and the player's stays between
    /// zero and the maximum (each when it held before).
    pub open spec fn steps_from(&self, o: &Vm) -> bool {
        &&& self.player_max_life == o.player_max_life
        &&& self.loadout == o.loadout
        &&& self.player_class == o.player_class
        &&& self.events@.len() >= o.events@.len()
        &&& forall|i: int| 0 <= i < o.events@.len() ==> #[trigger] self.events@[i] == o.events@[i]
        &&& forall|i: int| o.events@.len() <= i < self.events@.len() ==> step_event(#[trigger] self.events@[i])
        &&& (0 <= o.enemy_life ==> 0 <= self.enemy_life <= o.enemy_life)
        &&& (0 <= o.player_life <= o.player_max_life ==> 0 <= self.player_life <= self.player_max_life)
    }

    /// What an item adds to an attack or a heal: the equipped item's bonus
    /// and the class bonus.
    pub open spec fn bonus_for(&self, item: Item) -> int {
        equipped_bonus_of(self.loadout, item) + class_bonus_of(self.player_class, item.kind)
    }

    /// The damage an attack with `item` would deal against the weakness,
    /// before bonuses, and whether it hit the weakness.
    pub open spec fn weakness_hit(&self, item: Item) -> (int, bool) {
        match self.enemy_weakness {
            Weakness::Elemento(e) => if element_of(item.name@) == e {
                full_hit()
            } else {
                reduced_hit()
            },
            Weakness::Eficiencia { max_ciclos } => if sat_sub(self.cycles_used as int, self.size_charge as int)
                <= max_ciclos {
                full_hit()
            } else {
                reduced_hit()
            },
            Weakness::ExigeGuarda => if self.enemy_posture == Posture::Guarda {
                full_hit()
            } else {
                reduced_hit()
            },
            Weakness::RequerInspecao => if self.enemy_inspected {
                full_hit()
            } else {
                (0, false)
            },
            Weakness::DuploSelo => if self.enemy_posture == Posture::Guarda && self.enemy_inspected {
                full_hit()
            } else {
                reduced_hit()
            },
            Weakness::ExigeNomeacao => if self.depth > 0 {
                full_hit()
            } else {
                reduced_hit()
            },
            Weakness::ExigeInvocacaoDupla => if self.invocations_this_turn >= MAX_INVOCATIONS_PER_TURN {
                full_hit()
            } else {
                reduced_hit()
            },
        }
    }

    /// The damage an attack with `item` deals, bonuses included, and
    /// whether it hit the weakness.
    pub open spec fn attack_outcome(&self, item: Item) -> (int, bool) {
        (self.weakness_hit(item).0 + self.bonus_for(item), self.weakness_hit(item).1)
    }

    /// How the fight of `self` follows from the fight of `o` after the
    /// native action `name` with its argument, at `line`.
    pub open spec fn fight_after(&self, o: &Vm, name: Seq<char>, arg: Option<Item>, line: usize) -> bool {
        let it = arg->Some_0;
        if name == "atacar"@ {
            &&& self.enemy_life == max0(o.enemy_life - o.attack_outcome(it).0)
            &&& self.player_life == o.player_life
            &&& self.enemy_inspected == o.enemy_inspected
            &&& self.shielded == o.shielded
            &&& self.events@ == o.events@.push(
                TurnEvent::Attacked {
                    line,
                    item: it,
                    damage: o.attack_outcome(it).0 as i32,
                    effective: o.attack_outcome(it).1,
                },
            )
        } else if name == "defender"@ {
            &&& self.enemy_life == o.enemy_life
            &&& self.player_life == o.player_life
            &&& self.enemy_inspected == o.enemy_inspected
            &&& self.shielded == Some(it)
            &&& self.events@ == o.events@.push(TurnEvent::Defended { line, item: it })
        } else if name == "inspecionar"@ {
            &&& self.enemy_life == o.enemy_life
            &&& self.player_life == o.player_life
            &&& self.enemy_inspected
            &&& self.shielded == o.shielded
            &&& self.events@ == o.events@.push(TurnEvent::Inspected { line })
        } else if name == "curar"@ {
            &&& self.enemy_life == o.enemy_life
            &&& self.player_life == min_int(
                o.player_life + HEAL_AMOUNT + o.bonus_for(it),
                o.player_max_life as int,
            )
            &&& self.enemy_inspected == o.enemy_inspected
            &&& self.shielded == o.shielded
            &&& self.events@ == o.events@.push(
                TurnEvent::Healed { line, amount: (HEAL_AMOUNT + o.bonus_for(it)) as i32 },
            )
        } else {
            &&& self.enemy_life == o.enemy_life
            &&& self.player_life == o.player_life
            &&& self.enemy_inspected == o.enemy_inspected
            &&& self.shielded == o.shielded
            &&& self.events@ == o.events@.push(TurnEvent::Waited { line })
        }
    }

    /// A fresh pass: nothing spent, nothing recorded, no function running.
    pub fn new(
        cycle_budget: u32,
        player_life: i32,
        player_max_life: i32,
        enemy_life: i32,
        enemy_max_life: i32,
        enemy_posture: Posture,
        enemy_weakness: Weakness,
        dry_run: bool,
        loadout: Option<Loadout>,
        player_class: Option<PlayerClass>,
    ) -> (r: Vm)
        requires
            cycle_budget <= i32::MAX,
        ensures
            r.wf(),
            r.cycles_used == 0,
            r.cycle_budget == cycle_budget,
            r.dry_run == dry_run,
            r.events@.len() == 0,
            r.depth == 0,
            r.invocations_this_turn == 0,
            r.player_life == player_life,
            r.player_max_life == player_max_life,
            r.enemy_life == enemy_life,
            r.enemy_max_life == enemy_max_life,
            r.enemy_posture == enemy_posture,
            r.enemy_weakness == enemy_weakness,
            !r.enemy_inspected,
            r.shielded is None,
            r.loadout == loadout,
            r.player_class == player_class,
            r.size_charge == 0,
    {
        Vm {
            cycles_used: 0,
            cycle_budget,
            dry_run,
            events: Vec::new(),
            depth: 0,
            invocations_this_turn: 0,
            player_life,
            player_max_life,
            enemy_life,
            enemy_max_life,
            enemy_posture,
            enemy_weakness,
            enemy_inspected: false,
            shielded: None,
            loadout,
            player_class,
            size_charge: 0,
        }
    }

    /// Spends `cost` cycles, or reports that the budget ran out at `line`
    /// and spends nothing.
    pub fn charge(&mut self, line: usize, cost: u32) -> (r: Result<(), Signal>)
        requires
            old(self).wf(),
        ensures
            final(self).steps_from(old(self)),
            final(self).wf(),
            old(self).cycles_used + cost <= old(self).cycle_budget ==> {
                &&& r is Ok
                &&& final(self).cycles_used == old(self).cycles_used + cost
                &&& final(self).same_frame(old(self))
                &&& final(self).same_fight(old(self))
            },
            old(self).cycles_used + cost > old(self).cycle_budget ==> {
                &&& r matches Err(Signal::Truncated { line: l }) && l == line
                &&& *final(self) == *old(self)
            },
    {
        if cost > self.cycle_budget - self.cycles_used {
            return Err(Signal::Truncated { line });
        }
        self.cycles_used = self.cycles_used + cost;
        Ok(())
    }

    /// Charges the size of the written program, once, before anything runs:
    /// each statement written costs the same, however often it runs.
    pub fn charge_program_size(&mut self, program: &Vec<Stmt>) -> (r: Result<(), Signal>)
        requires
            old(self).wf(),
        ensures
            final(self).steps_from(old(self)),
            final(self).wf(),
            ({
                let cost = block_size(stmts_view(program@)) * STMT_SIZE_COST;
                let line = if program@.len() > 0 {
                    program@[0].line
                } else {
                    1
                };
                &&& old(self).cycles_used + cost <= old(self).cycle_budget ==> {
                    &&& r is Ok
                    &&& final(self).cycles_used == old(self).cycles_used + cost
                    &&& final(self).size_charge == cost
                    &&& final(self).same_fight(old(self))
                    &&& final(self).cycle_budget == old(self).cycle_budget
                    &&& final(self).depth == old(self).depth
                    &&& final(self).invocations_this_turn == old(self).invocations_this_turn
                    &&& final(self).dry_run == old(self).dry_run
                }
                &&& old(self).cycles_used + cost > old(self).cycle_budget ==> {
                    &&& r matches Err(Signal::Truncated { line: l }) && l == line
                    &&& *final(self) == *old(self)
                }
            }),
    {
        let line: usize = if program.len() > 0 {
            program[0].line
        } else {
            1
        };
        let size = count_stmts(program);
        match size {
            Some(n) => match n.checked_mul(STMT_SIZE_COST) {
                Some(cost) => {
                    match self.charge(line, cost) {
                        Ok(()) => {},
                        Err(e) => {
                            return Err(e);
                        },
                    }
                    self.size_charge = cost;
                    Ok(())
                },
                None => Err(Signal::Truncated { line }),
            },
            None => Err(Signal::Truncated { line }),
        }
    }

    /// The bonus of the equipped item, when `item` is it (same kind, same
    /// name without case); zero otherwise.
    pub fn equipped_bonus(&self, item: &Item) -> (r: i32)
        ensures
            r == equipped_bonus_of(self.loadout, *item),
    {
        match &self.loadout {
            Some(lo) => match lo.slot(item.kind) {
                Some(eq) => {
                    let a = to_lowercase(eq.name.as_str());
                    let b = to_lowercase(item.name.as_str());
                    if str_eq(a.as_str(), b.as_str()) {
                        eq.bonus_damage
                    } else {
                        0
                    }
                },
                None => 0,
            },
            None => 0,
        }
    }

    /// The class bonus, when the item's kind is the class's affinity,
    /// whether the item is equipped or not.
    pub fn class_bonus(&self, item: &Item) -> (r: i32)
        ensures
            r == class_bonus_of(self.player_class, item.kind),
    {
        match self.player_class {
            Some(c) => if c.affinity() == item.kind {
                CLASS_BONUS_DAMAGE
            } else {
                0
            },
            None => 0,
        }
    }

    /// Equipment bonus plus class bonus: what an item adds to an attack and
    /// to a heal, and what it takes off a blocked blow.
    pub fn item_bonus(&self, item: &Item) -> (r: i32)
        requires
            fits(self.bonus_for(*item)),
        ensures
            r == self.bonus_for(*item),
    {
        self.equipped_bonus(item) + self.class_bonus(item)
    }

    /// The damage an attack with `item` deals against the monster's
    /// weakness, before bonuses, and whether it hit the weakness. Missing
    /// the weakness deals an eighth of the damage; a hidden weakness that was
    /// not inspected deals nothing.
    pub fn resolve_attack_by_weakness(&self, item: &Item) -> (r: (i32, bool))
        ensures
            r.0 == self.weakness_hit(*item).0,
            r.1 == self.weakness_hit(*item).1,
    {
        let reduced = BASE_ATTACK_DAMAGE / 8;
        match self.enemy_weakness {
            Weakness::Elemento(elem) => {
                if Element::from_name(item.name.as_str()) == elem {
                    (BASE_ATTACK_DAMAGE, true)
                } else {
                    (reduced, false)
                }
            },
            Weakness::Eficiencia { max_ciclos } => {
                if self.cycles_used.saturating_sub(self.size_charge) <= max_ciclos {
                    (BASE_ATTACK_DAMAGE, true)
                } else {
                    (reduced, false)
                }
            },
            Weakness::ExigeGuarda => {
                if self.enemy_posture == Posture::Guarda {
                    (BASE_ATTACK_DAMAGE, true)
                } else {
                    (reduced, false)
                }
            },
            Weakness::RequerInspecao => {
                if self.enemy_inspected {
                    (BASE_ATTACK_DAMAGE, true)
                } else {
                    (0, false)
                }
            },
            Weakness::DuploSelo => {
                if self.enemy_posture == Posture::Guarda && self.enemy_inspected {
                    (BASE_ATTACK_DAMAGE, true)
                } else {
                    (reduced, false)
                }
            },
            Weakness::ExigeNomeacao => {
                if self.depth > 0 {
                    (BASE_ATTACK_DAMAGE, true)
                } else {
                    (reduced, false)
                }
            },
            Weakness::ExigeInvocacaoDupla => {
                if self.invocations_this_turn >= MAX_INVOCATIONS_PER_TURN {
                    (BASE_ATTACK_DAMAGE, true)
                } else {
                    (reduced, false)
                }
            },
        }
    }

    /// The damage an attack with `item` deals, bonuses added after the
    /// weakness decided, and whether it hit the weakness.
    pub fn resolve_attack(&self, item: &Item) -> (r: (i32, bool))
        requires
            fits(self.bonus_for(*item)),
            fits(self.attack_outcome(*item).0),
        ensures
            r.0 == self.attack_outcome(*item).0,
            r.1 == self.attack_outcome(*item).1,
    {
        let (base, effective) = self.resolve_attack_by_weakness(item);
        (base + self.item_bonus(item), effective)
    }


    /// Charges a native action before its arguments are evaluated.
    pub fn begin_native_call(&mut self, name: &str, line: usize) -> (r: Result<(), Signal>)
        requires
            old(self).wf(),
            native_cost(name@) is Some,
        ensures
            final(self).steps_from(old(self)),
            final(self).wf(),
            ({
                let cost = native_cost(name@)->Some_0;
                &&& old(self).cycles_used + cost <= old(self).cycle_budget ==> {
                    &&& r is Ok
                    &&& final(self).cycles_used == old(self).cycles_used + cost
                    &&& final(self).same_frame(old(self))
                    &&& final(self).same_fight(old(self))
                }
                &&& old(self).cycles_used + cost > old(self).cycle_budget ==> {
                    &&& r matches Err(Signal::Truncated { line: l }) && l == line
                    &&& *final(self) == *old(self)
                }
            }),
    {
        let cost = match call_cost(name) {
            Some(c) => c,
            None => 0,
        };
        self.charge(line, cost)
    }

    /// What a native action does once its arguments are evaluated:
    /// `atacar` hits the monster, `defender` raises the shield for the
    /// monster's blow, `inspecionar` reveals the weakness for the rest of the
    /// turn, `curar` heals up to the maximum, `esperar` does nothing. A call
    /// with the wrong arguments is an error at its line; the validation pass
    /// checks the arguments and changes nothing.
    pub fn apply_native(&mut self, name: &str, args: Vec<ArgValue>, line: usize) -> (r: Result<(), Signal>)
        requires
            old(self).wf(),
            native_cost(name@) is Some,
            !old(self).dry_run && native_arg(name@, args@) is Ok ==> old(self).native_fits(
                name@,
                native_arg(name@, args@)->Ok_0,
            ),
        ensures
            nonneg_bonuses(old(self).loadout) ==> final(self).steps_from(old(self)),
            final(self).wf(),
            match native_arg(name@, args@) {
                Err(msg) => {
                    &&& (r matches Err(Signal::Error(e)) && e.line == line && e.message@ == msg)
                    &&& *final(self) == *old(self)
                },
                Ok(arg) => {
                    &&& r is Ok
                    &&& final(self).cycles_used == old(self).cycles_used
                    &&& final(self).same_frame(old(self))
                    &&& (old(self).dry_run ==> final(self).same_fight(old(self)))
                    &&& (!old(self).dry_run ==> final(self).fight_after(old(self), name@, arg, line))
                },
            },
    {
        let wants_item = str_eq(name, "atacar") || str_eq(name, "defender") || str_eq(name, "curar");
        let n = args.len();
        let expected: usize = if wants_item {
            1
        } else {
            0
        };
        if n != expected {
            let mut m = String::new();
            push_str(&mut m, "'");
            push_str(&mut m, name);
            push_str(&mut m, "' espera ");
            let et = count_text(expected);
            push_chars(&mut m, et.as_slice());
            push_str(&mut m, " argumento(s), recebeu ");
            let nt = count_text(n);
            push_chars(&mut m, nt.as_slice());
            return Err(error_at(line, m));
        }
        if !wants_item {
            if !self.dry_run {
                if str_eq(name, "inspecionar") {
                    self.enemy_inspected = true;
                    self.events.push(TurnEvent::Inspected { line });
                } else {
                    self.events.push(TurnEvent::Waited { line });
                }
            }
            return Ok(());
        }
        let mut args = args;
        let first = args.remove(0);
        let item = match first {
            ArgValue::Item(it) => it,
            ArgValue::Other(t) => {
                let mut m = String::new();
                push_str(&mut m, "'");
                push_str(&mut m, name);
                push_str(&mut m, "' espera um item (ex.: espada[");
                crate::text::push_char(&mut m, DOUBLE_QUOTE);
                push_str(&mut m, "fogo");
                crate::text::push_char(&mut m, DOUBLE_QUOTE);
                push_str(&mut m, "]), recebeu ");
                push_str(&mut m, t);
                return Err(error_at(line, m));
            },
        };
        if self.dry_run {
            return Ok(());
        }
        if str_eq(name, "atacar") {
            let (damage, effective) = self.resolve_attack(&item);
            let left = self.enemy_life - damage;
            self.enemy_life = if left > 0 {
                left
            } else {
                0
            };
            self.events.push(TurnEvent::Attacked { line, item, damage, effective });
        } else if str_eq(name, "defender") {
            self.shielded = Some(item.copied());
            self.events.push(TurnEvent::Defended { line, item });
        } else {
            proof {
                reveal_strlit("curar");
                reveal_strlit("inspecionar");
                assert("curar"@[0] != "inspecionar"@[0]);
            }
            let amount = HEAL_AMOUNT + self.item_bonus(&item);
            let healed = self.player_life + amount;
            self.player_life = if healed < self.player_max_life {
                healed
            } else {
                self.player_max_life
            };
            self.events.push(TurnEvent::Healed { line, amount });
        }
        Ok(())
    }


    /// Enters an `invocar` block: charges its cost from the main budget,
    /// refuses a third block in the same turn, and gives the body a fixed
    /// budget of its own. Returns the main budget and what was spent of it,
    /// for `leave_invoke`.
    pub fn enter_invoke(&mut self, line: usize) -> (r: Result<(u32, u32), Signal>)
        requires
            old(self).wf(),
        ensures
            final(self).steps_from(old(self)),
            final(self).wf(),
            old(self).cycles_used + INVOKE_COST > old(self).cycle_budget ==> {
                &&& r matches Err(Signal::Truncated { line: l }) && l == line
                &&& *final(self) == *old(self)
            },
            old(self).cycles_used + INVOKE_COST <= old(self).cycle_budget ==> {
                &&& old(self).invocations_this_turn >= MAX_INVOCATIONS_PER_TURN ==> (r matches Err(
                    Signal::Error(e),
                ) && e.line == line && e.message@ == invocation_limit_msg())
                &&& old(self).invocations_this_turn < MAX_INVOCATIONS_PER_TURN ==> {
                    &&& r == Ok::<(u32, u32), Signal>((old(self).cycle_budget, (old(self).cycles_used + INVOKE_COST) as u32))
                    &&& final(self).invocations_this_turn == old(self).invocations_this_turn + 1
                    &&& final(self).cycle_budget == INVOKE_BUDGET
                    &&& final(self).cycles_used == 0
                    &&& final(self).same_fight(old(self))
                    &&& final(self).depth == old(self).depth
                    &&& final(self).dry_run == old(self).dry_run
                    &&& final(self).size_charge == old(self).size_charge
                    &&& final(self).enemy_posture == old(self).enemy_posture
                    &&& final(self).enemy_weakness == old(self).enemy_weakness
                    &&& final(self).loadout == old(self).loadout
                    &&& final(self).player_class == old(self).player_class
                }
            },
    {
        match self.charge(line, INVOKE_COST) {
            Ok(()) => {},
            Err(e) => {
                return Err(e);
            },
        }
        if self.invocations_this_turn >= MAX_INVOCATIONS_PER_TURN {
            let mut m = String::new();
            push_str(&mut m, "limite de invocacoes por turno excedido (maximo ");
            let t = count_text(MAX_INVOCATIONS_PER_TURN);
            push_chars(&mut m, t.as_slice());
            push_str(&mut m, ")");
            return Err(error_at(line, m));
        }
        self.invocations_this_turn = self.invocations_this_turn + 1;
        let saved = (self.cycle_budget, self.cycles_used);
        self.cycle_budget = INVOKE_BUDGET;
        self.cycles_used = 0;
        Ok(saved)
    }

    /// Leaves an `invocar` block: the main budget comes back as it was, so
    /// nothing spent inside counts against it; running out of the block's own
    /// budget only ends the block, while an error goes on.
    pub fn leave_invoke(&mut self, saved: (u32, u32), result: Result<(), Signal>) -> (r: Result<(), Signal>)
        requires
            old(self).wf(),
            saved.1 <= saved.0 <= i32::MAX,
        ensures
            final(self).steps_from(old(self)),
            final(self).wf(),
            final(self).cycle_budget == saved.0,
            final(self).cycles_used == saved.1,
            final(self).same_fight(old(self)),
            final(self).depth == old(self).depth,
            final(self).invocations_this_turn == old(self).invocations_this_turn,
            final(self).dry_run == old(self).dry_run,
            final(self).size_charge == old(self).size_charge,
            final(self).enemy_posture == old(self).enemy_posture,
            final(self).enemy_weakness == old(self).enemy_weakness,
            final(self).loadout == old(self).loadout,
            final(self).player_class == old(self).player_class,
            match result {
                Err(Signal::Error(e)) => r matches Err(Signal::Error(e2)) && e2 == e,
                _ => r is Ok,
            },
    {
        self.cycle_budget = saved.0;
        self.cycles_used = saved.1;
        match result {
            Err(Signal::Error(e)) => Err(Signal::Error(e)),
            _ => Ok(()),
        }
    }

    /// Charges the call of a player function, before its arguments are
    /// evaluated: this is what makes endless recursion run out of budget.
    pub fn begin_user_call(&mut self, line: usize) -> (r: Result<(), Signal>)
        requires
            old(self).wf(),
        ensures
            final(self).steps_from(old(self)),
            final(self).wf(),
            old(self).cycles_used + USER_CALL_COST <= old(self).cycle_budget ==> {
                &&& r is Ok
                &&& final(self).cycles_used == old(self).cycles_used + USER_CALL_COST
                &&& final(self).same_frame(old(self))
                &&& final(self).same_fight(old(self))
            },
            old(self).cycles_used + USER_CALL_COST > old(self).cycle_budget ==> {
                &&& r matches Err(Signal::Truncated { line: l }) && l == line
                &&& *final(self) == *old(self)
            },
    {
        self.charge(line, USER_CALL_COST)
    }

    /// Enters the body of the player function `name`, called with `n_args`
    /// arguments: functions take none, and calls nest at most
    /// `MAX_CALL_DEPTH` deep.
    pub fn enter_user_call(&mut self, name: &str, n_args: usize, line: usize) -> (r: Result<(), Signal>)
        requires
            old(self).wf(),
        ensures
            final(self).steps_from(old(self)),
            final(self).wf(),
            n_args != 0 ==> (r matches Err(Signal::Error(e)) && e.line == line && e.message@ == no_args_msg(
                name@,
                n_args as nat,
            )) && *final(self) == *old(self),
            n_args == 0 && old(self).depth >= MAX_CALL_DEPTH ==> (r matches Err(Signal::Error(e)) && e.line == line
                && e.message@ == depth_msg(name@)) && *final(self) == *old(self),
            n_args == 0 && old(self).depth < MAX_CALL_DEPTH ==> {
                &&& r is Ok
                &&& final(self).depth == old(self).depth + 1
                &&& final(self).cycles_used == old(self).cycles_used
                &&& final(self).cycle_budget == old(self).cycle_budget
                &&& final(self).invocations_this_turn == old(self).invocations_this_turn
                &&& final(self).dry_run == old(self).dry_run
                &&& final(self).size_charge == old(self).size_charge
                &&& final(self).enemy_posture == old(self).enemy_posture
                &&& final(self).enemy_weakness == old(self).enemy_weakness
                &&& final(self).loadout == old(self).loadout
                &&& final(self).player_class == old(self).player_class
                &&& final(self).same_fight(old(self))
            },
    {
        if n_args != 0 {
            let mut m = String::new();
            push_str(&mut m, "funcao '");
            push_str(&mut m, name);
            push_str(&mut m, "' nao recebe argumento, mas foi chamada com ");
            let t = count_text(n_args);
            push_chars(&mut m, t.as_slice());
            return Err(error_at(line, m));
        }
        if self.depth >= MAX_CALL_DEPTH {
            let mut m = String::new();
            push_str(&mut m, "'");
            push_str(&mut m, name);
            push_str(&mut m, "': profundidade maxima de chamada excedida (limite ");
            let t = count_text(MAX_CALL_DEPTH);
            push_chars(&mut m, t.as_slice());
            push_str(&mut m, ")");
            return Err(error_at(line, m));
        }
        self.depth = self.depth + 1;
        Ok(())
    }

    /// Leaves the body of a player function, however it ended.
    pub fn leave_user_call(&mut self)
        requires
            old(self).wf(),
            old(self).depth > 0,
        ensures
            final(self).steps_from(old(self)),
            final(self).wf(),
            final(self).depth == old(self).depth - 1,
            final(self).cycles_used == old(self).cycles_used,
            final(self).cycle_budget == old(self).cycle_budget,
            final(self).invocations_this_turn == old(self).invocations_this_turn,
            final(self).dry_run == old(self).dry_run,
            final(self).size_charge == old(self).size_charge,
            final(self).enemy_posture == old(self).enemy_posture,
            final(self).enemy_weakness == old(self).enemy_weakness,
            final(self).loadout == old(self).loadout,
            final(self).player_class == old(self).player_class,
            final(self).same_fight(old(self)),
    {
        self.depth = self.depth - 1;
    }

    /// What `eu.<field>` or `inimigo.<field>` reads: the life, the maximum
    /// life, the cycles left in the budget, and the enemy's posture.
    pub open spec fn entity_field_spec(&self, target: Target, field: Seq<char>) -> Result<FieldSpec, Seq<char>> {
        let (life, max_life) = match target {
            Target::Me => (self.player_life as int, self.player_max_life as int),
            Target::Enemy => (self.enemy_life as int, self.enemy_max_life as int),
        };
        if field == "vida"@ {
            Ok(FieldSpec::Number(life))
        } else if field == "vida_max"@ {
            Ok(FieldSpec::Number(max_life))
        } else if field == "postura"@ && target == Target::Enemy {
            Ok(FieldSpec::Text(posture_word(self.enemy_posture)))
        } else if field == "ciclos"@ {
            Ok(FieldSpec::Number(self.cycle_budget - self.cycles_used))
        } else {
            Err(unknown_field_msg(field))
        }
    }

    pub fn entity_field(&self, target: Target, field: &str, line: usize) -> (r: Result<FieldValue, Signal>)
        requires
            self.wf(),
        ensures
            field_matches(r, self.entity_field_spec(target, field@), line),
    {
        let (life, max_life) = match target {
            Target::Me => (self.player_life, self.player_max_life),
            Target::Enemy => (self.enemy_life, self.enemy_max_life),
        };
        if str_eq(field, "vida") {
            Ok(FieldValue::Number(life as i64))
        } else if str_eq(field, "vida_max") {
            Ok(FieldValue::Number(max_life as i64))
        } else if str_eq(field, "postura") && target == Target::Enemy {
            let mut t = String::new();
            push_str(&mut t, self.enemy_posture.as_str());
            Ok(FieldValue::Text(t))
        } else if str_eq(field, "ciclos") {
            Ok(FieldValue::Number((self.cycle_budget - self.cycles_used) as i64))
        } else {
            Err(error_at(line, quoted("campo desconhecido: '", field, "'")))
        }
    }

    /// Records what a `selecionar()` did; the validation pass records
    /// nothing.
    pub fn record_selection(&mut self, line: usize, examined: usize, found: bool)
        requires
            old(self).wf(),
        ensures
            final(self).steps_from(old(self)),
            final(self).wf(),
            final(self).cycles_used == old(self).cycles_used,
            final(self).same_frame(old(self)),
            final(self).player_life == old(self).player_life,
            final(self).enemy_life == old(self).enemy_life,
            final(self).enemy_inspected == old(self).enemy_inspected,
            final(self).shielded == old(self).shielded,
            old(self).dry_run ==> final(self).events@ == old(self).events@,
            !old(self).dry_run ==> final(self).events@ == old(self).events@.push(
                TurnEvent::Selected { line, examined, found },
            ),
    {
        if !self.dry_run {
            self.events.push(TurnEvent::Selected { line, examined, found });
        }
    }


    /// Settles the turn after the real pass. An error ends it with no effect
    /// at all. Otherwise the monster strikes, every turn: the special blow
    /// when its charge is full, doubled when the script ran over budget,
    /// halved by a shield and reduced by the shield's bonus; the player's
    /// life never goes below zero. A script that finished with cycles to
    /// spare, having run at least one, adds a bonus strike of the cycles
    /// left.
    pub fn finish_turn(self, outcome: Result<(), Signal>, enemy_base_damage: i32, enemy_special_ready: bool) -> (r:
        Result<TurnResult, ScriptError>)
        requires
            self.wf(),
            outcome is Ok ==> self.settle_fits(false, enemy_base_damage as int, enemy_special_ready),
            outcome matches Err(Signal::Truncated { .. }) ==> self.settle_fits(
                true,
                enemy_base_damage as int,
                enemy_special_ready,
            ),
        ensures
            match outcome {
                Err(Signal::Error(e)) => r == Err::<TurnResult, ScriptError>(e),
                Err(Signal::Truncated { line }) => r is Ok && self.settled(
                    r->Ok_0,
                    Some(line),
                    enemy_base_damage as int,
                    enemy_special_ready,
                ),
                Ok(()) => r is Ok && self.settled(r->Ok_0, None, enemy_base_damage as int, enemy_special_ready),
            },
    {
        let mut vm = self;
        let ghost e0 = vm.events@;
        let truncated = match outcome {
            Ok(()) => {
                assert(vm.events@ =~= e0 + Seq::<TurnEvent>::empty());
                false
            },
            Err(Signal::Truncated { line }) => {
                vm.events.push(TurnEvent::Truncated { line });
                assert(vm.events@ =~= e0 + seq![TurnEvent::Truncated { line }]);
                true
            },
            Err(Signal::Error(e)) => {
                return Err(e);
            },
        };
        let turn_base = if enemy_special_ready {
            enemy_base_damage * 5 / 2
        } else {
            enemy_base_damage
        };
        let pre_defense = if truncated {
            turn_base * TRUNCATE_DAMAGE_MULTIPLIER
        } else {
            turn_base
        };
        let blocked = vm.shielded.is_some();
        let dmg = match &vm.shielded {
            Some(item) => {
                let bonus = vm.item_bonus(item);
                let d = pre_defense / 2 - bonus;
                if d > 0 {
                    d
                } else {
                    0
                }
            },
            None => pre_defense,
        };
        let left = vm.player_life - dmg;
        vm.player_life = if left > 0 {
            left
        } else {
            0
        };
        let ghost before_blow = vm.events@;
        vm.events.push(
            TurnEvent::CounterAttack { damage: dmg, blocked, special: enemy_special_ready, truncated },
        );
        let ghost after_blow = vm.events@;
        assert(after_blow =~= before_blow + seq![
            TurnEvent::CounterAttack { damage: dmg, blocked, special: enemy_special_ready, truncated },
        ]);
        assert(after_blow.take(after_blow.len() as int) =~= after_blow);
        if !truncated {
            let remaining = vm.cycle_budget - vm.cycles_used;
            if remaining > 0 && vm.cycles_used > 0 && vm.enemy_life > 0 {
                let bonus = remaining as i32;
                let e = vm.enemy_life - bonus;
                vm.enemy_life = if e > 0 {
                    e
                } else {
                    0
                };
                vm.events.push(TurnEvent::BonusStrike { damage: bonus });
                assert(vm.events@.take(after_blow.len() as int) =~= after_blow);
            }
        }
        Ok(
            TurnResult {
                events: vm.events,
                cycles_used: vm.cycles_used,
                cycle_budget: vm.cycle_budget,
                truncated,
                player_life: vm.player_life,
                enemy_life: vm.enemy_life,
            },
        )
    }

    /// The shield's bonus, when a shield was raised this turn.
    pub open spec fn shield_bonus(&self) -> Option<int> {
        match self.shielded {
            Some(it) => Some(self.bonus_for(it)),
            None => None,
        }
    }

    /// Whether the arithmetic of the native action `name` with its argument
    /// stays in `i32`: the bonus, the damage and the life left after an
    /// attack; the bonus, the amount and the life reached by a heal.
    pub open spec fn native_fits(&self, name: Seq<char>, arg: Option<Item>) -> bool {
        let it = arg->Some_0;
        if name == "atacar"@ {
            &&& fits(self.bonus_for(it))
            &&& fits(self.attack_outcome(it).0)
            &&& fits(self.enemy_life - self.attack_outcome(it).0)
        } else if name == "curar"@ {
            &&& fits(self.bonus_for(it))
            &&& fits(HEAL_AMOUNT + self.bonus_for(it))
            &&& fits(self.player_life + HEAL_AMOUNT + self.bonus_for(it))
        } else {
            true
        }
    }

    /// Whether the settlement of the turn stays in `i32`: the special blow's
    /// five halves, the doubled blow of a cut turn, the shield's bonus and
    /// what it leaves of the blow, the player's life after it, and the
    /// monster's life after the bonus strike.
    pub open spec fn settle_fits(&self, truncated: bool, base: int, special: bool) -> bool {
        let pre = if truncated {
            turn_base(base, special) * TRUNCATE_DAMAGE_MULTIPLIER
        } else {
            turn_base(base, special)
        };
        &&& (special ==> fits(base * 5))
        &&& fits(pre)
        &&& match self.shielded {
            Some(it) => fits(self.bonus_for(it)) && fits(half(pre) - self.bonus_for(it)),
            None => true,
        }
        &&& fits(self.player_life - blow_damage(base, special, truncated, self.shield_bonus()))
        &&& (self.earns_bonus(truncated) ==> fits(self.enemy_life - (self.cycle_budget - self.cycles_used)))
    }

    fn bonus_wide(&self, item: &Item) -> (r: i64)
        ensures
            r == self.bonus_for(*item),
    {
        self.equipped_bonus(item) as i64 + self.class_bonus(item) as i64
    }

    /// Whether `native_fits` holds for the action `name` on `item`.
    pub fn can_apply_native(&self, name: &str, item: &Item) -> (r: bool)
        ensures
            r == self.native_fits(name@, Some(*item)),
    {
        let bonus = self.bonus_wide(item);
        if str_eq(name, "atacar") {
            let (hit, _) = self.resolve_attack_by_weakness(item);
            let dmg = hit as i64 + bonus;
            fits_i64(bonus) && fits_i64(dmg) && fits_i64(self.enemy_life as i64 - dmg)
        } else if str_eq(name, "curar") {
            let amount = HEAL_AMOUNT as i64 + bonus;
            fits_i64(bonus) && fits_i64(amount) && fits_i64(self.player_life as i64 + amount)
        } else {
            true
        }
    }

    /// Whether `settle_fits` holds for a turn that was cut or not, against
    /// this base damage.
    pub fn can_settle(&self, truncated: bool, enemy_base_damage: i32, enemy_special_ready: bool) -> (r: bool)
        requires
            self.wf(),
        ensures
            r == self.settle_fits(truncated, enemy_base_damage as int, enemy_special_ready),
    {
        let base = enemy_base_damage as i64;
        let five = base * 5;
        if enemy_special_ready && !fits_i64(five) {
            return false;
        }
        let tb = if enemy_special_ready {
            five / 2
        } else {
            base
        };
        assert(tb == turn_base(enemy_base_damage as int, enemy_special_ready));
        assert(fits(tb as int));
        assert(TRUNCATE_DAMAGE_MULTIPLIER == 2);
        let pre = if truncated {
            tb * 2
        } else {
            tb
        };
        if !fits_i64(pre) {
            return false;
        }
        let dmg: i64 = match &self.shielded {
            Some(it) => {
                let bonus = self.bonus_wide(it);
                let d = pre / 2 - bonus;
                if !fits_i64(bonus) || !fits_i64(d) {
                    return false;
                }
                if d > 0 {
                    d
                } else {
                    0
                }
            },
            None => pre,
        };
        if !fits_i64(self.player_life as i64 - dmg) {
            return false;
        }
        let remaining = self.cycle_budget - self.cycles_used;
        if !truncated && remaining > 0 && self.cycles_used > 0 && self.enemy_life > 0 {
            fits_i64(self.enemy_life as i64 - remaining as i64)
        } else {
            true
        }
    }

    /// Whether a bonus strike follows a turn that ended with this machine.
    pub open spec fn earns_bonus(&self, truncated: bool) -> bool {
        !truncated && self.cycle_budget - self.cycles_used > 0 && self.cycles_used > 0 && self.enemy_life > 0
    }

    /// The settlement of the turn, as `finish_turn` makes it: what `t`
    /// holds when the pass ended this way.
    pub open spec fn settled(&self, t: TurnResult, cut_at: Option<usize>, base: int, special: bool) -> bool {
        let truncated = cut_at is Some;
        let dmg = blow_damage(base, special, truncated, self.shield_bonus());
        let blow = TurnEvent::CounterAttack {
            damage: dmg as i32,
            blocked: self.shielded is Some,
            special,
            truncated,
        };
        let remaining = self.cycle_budget - self.cycles_used;
        let cut: Seq<TurnEvent> = match cut_at {
            Some(line) => seq![TurnEvent::Truncated { line }],
            None => Seq::empty(),
        };
        &&& t.truncated == truncated
        &&& t.cycles_used == self.cycles_used
        &&& t.cycle_budget == self.cycle_budget
        &&& t.player_life == max0(self.player_life - dmg)
        &&& t.events@.len() == self.events@.len() + cut.len() + 1 + (if self.earns_bonus(truncated) {
            1int
        } else {
            0
        })
        &&& t.events@.take(self.events@.len() + cut.len() + 1int) == self.events@ + cut + seq![blow]
        &&& self.earns_bonus(truncated) ==> {
            &&& t.enemy_life == max0(self.enemy_life - remaining)
            &&& t.events@[self.events@.len() + cut.len() + 1int] == TurnEvent::BonusStrike { damage: remaining as i32 }
        }
        &&& !self.earns_bonus(truncated) ==> t.enemy_life == self.enemy_life
    }

    /// The monster strikes back at the end of every turn that settles, cut
    /// or not: right after the events of the turn (and the cut, if any)
    /// comes its blow, special when the charge was full, doubled when the
    /// turn was cut.
    pub proof fn lemma_blow_every_turn(&self, t: TurnResult, cut_at: Option<usize>, base: int, special: bool)
        requires
            self.settled(t, cut_at, base, special),
        ensures
            ({
                let at = self.events@.len() + if cut_at is Some { 1int } else { 0 };
                &&& at < t.events@.len()
                &&& t.events@[at] == TurnEvent::CounterAttack {
                    damage: blow_damage(base, special, cut_at is Some, self.shield_bonus()) as i32,
                    blocked: self.shielded is Some,
                    special,
                    truncated: cut_at is Some,
                }
            }),
    {
        let at = self.events@.len() + if cut_at is Some { 1int } else { 0 };
        assert(t.events@.take(at + 1)[at] == t.events@[at]);
    }

    /// The bonus strike comes exactly when the script finished, having run
    /// something, with cycles to spare and the monster standing; it hits for
    /// the cycles left and is the last event of the turn.
    pub proof fn lemma_bonus_strike(&self, t: TurnResult, cut_at: Option<usize>, base: int, special: bool)
        requires
            self.settled(t, cut_at, base, special),
        ensures
            ({
                let at = self.events@.len() + if cut_at is Some { 1int } else { 0 };
                &&& self.earns_bonus(cut_at is Some) <==> t.events@.len() == at + 2
                &&& self.earns_bonus(cut_at is Some) ==> t.events@[at + 1] == TurnEvent::BonusStrike {
                    damage: (self.cycle_budget - self.cycles_used) as i32,
                }
                &&& !self.earns_bonus(cut_at is Some) ==> t.enemy_life == self.enemy_life
                &&& cut_at is Some ==> !self.earns_bonus(true)
            }),
    {
    }

    /// A native action keeps the fight in range when the items it uses add
    /// nothing negative: the player's life stays between zero and the
    /// maximum, the monster's never grows and never goes below zero, and no
    /// cut is recorded.
    pub proof fn lemma_native_ranges(&self, o: &Vm, name: Seq<char>, arg: Option<Item>, line: usize)
        requires
            self.fight_after(o, name, arg, line),
            self.player_max_life == o.player_max_life,
            (name == "atacar"@ || name == "curar"@) ==> o.bonus_for(arg->Some_0) >= 0,
            0 <= o.player_life <= o.player_max_life,
            0 <= o.enemy_life,
        ensures
            0 <= self.player_life <= self.player_max_life,
            0 <= self.enemy_life <= o.enemy_life,
            no_cut(o.events@) ==> no_cut(self.events@),
    {
        if no_cut(o.events@) {
            assert forall|i: int| 0 <= i < self.events@.len() implies !(#[trigger] self.events@[i] is Truncated) by {
                if i < o.events@.len() {
                    assert(self.events@[i] == o.events@[i]);
                }
            }
        }
    }

    /// The settlement keeps a turn in range: the budget is the turn's, no
    /// more cycles were spent than it allows, the player's life stays
    /// between zero and the maximum, the monster's between zero and what
    /// it had; and, when nothing before cut the turn, the turn is cut
    /// exactly when a `Truncated` event is among its events.
    pub proof fn lemma_settle_ranges(&self, t: TurnResult, cut_at: Option<usize>, base: int, special: bool)
        requires
            self.wf(),
            self.settled(t, cut_at, base, special),
            base >= 0,
            0 <= self.player_life <= self.player_max_life,
            0 <= self.enemy_life,
        ensures
            t.cycle_budget == self.cycle_budget,
            t.cycles_used <= t.cycle_budget,
            0 <= t.player_life <= self.player_max_life,
            0 <= t.enemy_life <= self.enemy_life,
            no_cut(self.events@) ==> (t.truncated <==> !no_cut(t.events@)),
    {
        let k: int = self.events@.len() as int;
        let c: int = if cut_at is Some { 1 } else { 0 };
        let pre = t.events@.take(k + c + 1);
        assert(blow_damage(base, special, cut_at is Some, self.shield_bonus()) >= 0);
        if no_cut(self.events@) {
            if cut_at is Some {
                assert(pre[k] == t.events@[k]);
                assert(t.events@[k] is Truncated);
            } else {
                assert forall|i: int| 0 <= i < t.events@.len() implies !(#[trigger] t.events@[i] is Truncated) by {
                    if i < k + 1 {
                        assert(pre[i] == t.events@[i]);
                        if i < k {
                            assert(pre[i] == self.events@[i]);
                        }
                    }
                }
            }
        }
    }

    /// Each weakness is met by the play its description names, and meeting
    /// it is what gives the full hit; missing it hits for less (or, for a
    /// hidden weakness not yet inspected, for nothing).
    pub proof fn lemma_weakness_is_met_by_its_play(&self, it: Item)
        ensures
            self.weakness_hit(it).1 ==> self.weakness_hit(it).0 == BASE_ATTACK_DAMAGE,
            !self.weakness_hit(it).1 ==> 0 <= self.weakness_hit(it).0 < BASE_ATTACK_DAMAGE,
            match self.enemy_weakness {
                Weakness::Elemento(e) => self.weakness_hit(it).1 <==> element_of(it.name@) == e,
                Weakness::ExigeGuarda => self.weakness_hit(it).1 <==> self.enemy_posture == Posture::Guarda,
                Weakness::Eficiencia { max_ciclos } => self.weakness_hit(it).1 <==> self.cycles_used - self.size_charge
                    <= max_ciclos,
                Weakness::RequerInspecao => {
                    &&& self.weakness_hit(it).1 <==> self.enemy_inspected
                    &&& self.weakness_hit(it).0 > 0 <==> self.enemy_inspected
                },
                Weakness::DuploSelo => self.weakness_hit(it).1 <==> (self.enemy_posture == Posture::Guarda
                    && self.enemy_inspected),
                Weakness::ExigeNomeacao => self.weakness_hit(it).1 <==> self.depth > 0,
                Weakness::ExigeInvocacaoDupla => self.weakness_hit(it).1 <==> self.invocations_this_turn >= 2,
            },
    {
    }

    /// `curar` heals by the base amount plus the same bonus that an attack
    /// with the item gets: the equipped item's bonus when it is that item,
    /// and the class bonus when the item's kind is the class's; never past
    /// the maximum.
    pub proof fn lemma_heal_gets_the_item_bonus(&self, o: &Vm, it: Item, line: usize)
        requires
            self.fight_after(o, "curar"@, Some(it), line),
        ensures
            self.player_life == min_int(
                o.player_life + HEAL_AMOUNT + equipped_bonus_of(o.loadout, it) + class_bonus_of(o.player_class, it.kind),
                o.player_max_life as int,
            ),
            self.events@ == o.events@.push(
                TurnEvent::Healed {
                    line,
                    amount: (HEAL_AMOUNT + equipped_bonus_of(o.loadout, it) + class_bonus_of(o.player_class, it.kind))
                        as i32,
                },
            ),
            self.enemy_life == o.enemy_life,
    {
        reveal_strlit("curar");
        reveal_strlit("atacar");
        reveal_strlit("defender");
        reveal_strlit("inspecionar");
        assert("curar"@[0] != "atacar"@[0]);
        assert("curar"@[0] != "defender"@[0]);
        assert("curar"@[0] != "inspecionar"@[0]);
    }

    /// A heal and an attack with the same item get the same bonus: what the
    /// heal adds beyond `HEAL_AMOUNT` is what the attack adds beyond the hit
    /// against the weakness.
    pub proof fn lemma_heal_and_attack_share_the_bonus(&self, healed: &Vm, hit: &Vm, it: Item, line: usize)
        requires
            healed.fight_after(self, "curar"@, Some(it), line),
            hit.fight_after(self, "atacar"@, Some(it), line),
        ensures
            fits(self.bonus_for(it)) && fits(HEAL_AMOUNT + self.bonus_for(it)) && fits(self.attack_outcome(it).0) ==> {
                &&& healed.events@.last() is Healed
                &&& hit.events@.last() is Attacked
                &&& healed.events@.last()->Healed_amount - HEAL_AMOUNT == hit.events@.last()->Attacked_damage
                    - self.weakness_hit(it).0
            },
    {
        self.lemma_heal_gets_the_item_bonus_from(healed, it, line);
    }

    proof fn lemma_heal_gets_the_item_bonus_from(&self, healed: &Vm, it: Item, line: usize)
        requires
            healed.fight_after(self, "curar"@, Some(it), line),
        ensures
            healed.events@.last() == (TurnEvent::Healed {
                line,
                amount: (HEAL_AMOUNT + self.bonus_for(it)) as i32,
            }),
    {
        healed.lemma_heal_gets_the_item_bonus(self, it, line);
    }

    /// Steps compose: two steps in a row are a step.
    pub proof fn lemma_steps_compose(&self, mid: &Vm, o: &Vm)
        requires
            mid.steps_from(o),
            self.steps_from(mid),
        ensures
            self.steps_from(o),
    {
        assert forall|i: int| o.events@.len() <= i < self.events@.len() implies step_event(
            #[trigger] self.events@[i],
        ) by {
            if i < mid.events@.len() {
                assert(self.events@[i] == mid.events@[i]);
            }
        }
    }

    /// A whole turn, from a machine that has recorded nothing, through any
    /// number of steps, to its settlement: no more cycles spent than the
    /// budget; the player's life between zero and the maximum; the
    /// monster's between zero and what it had; exactly one blow of the
    /// monster; a cut recorded exactly when the turn was cut; and a bonus
    /// strike exactly when the script finished, having run something, with
    /// cycles to spare and the monster standing.
    pub proof fn lemma_whole_turn(&self, first: &Vm, t: TurnResult, cut_at: Option<usize>, base: int, special: bool)
        requires
            self.steps_from(first),
            self.wf(),
            self.settled(t, cut_at, base, special),
            first.events@.len() == 0,
            base >= 0,
            0 <= first.player_life <= first.player_max_life,
            0 <= first.enemy_life,
        ensures
            t.cycle_budget == self.cycle_budget,
            t.cycles_used <= t.cycle_budget,
            0 <= t.player_life <= first.player_max_life,
            0 <= t.enemy_life <= first.enemy_life,
            t.truncated <==> exists|i: int| 0 <= i < t.events@.len() && #[trigger] t.events@[i] is Truncated,
            exists|i: int| 0 <= i < t.events@.len() && #[trigger] t.events@[i] is CounterAttack,
            forall|i: int, j: int|
                0 <= i < t.events@.len() && 0 <= j < t.events@.len() && #[trigger] t.events@[i] is CounterAttack
                    && #[trigger] t.events@[j] is CounterAttack ==> i == j,
            self.earns_bonus(cut_at is Some) <==> exists|i: int|
                0 <= i < t.events@.len() && #[trigger] t.events@[i] is BonusStrike,
    {
        let k: int = self.events@.len() as int;
        let c: int = if cut_at is Some { 1 } else { 0 };
        let pre = t.events@.take(k + c + 1);
        assert(blow_damage(base, special, cut_at is Some, self.shield_bonus()) >= 0);
        assert forall|i: int| 0 <= i < k implies step_event(#[trigger] t.events@[i]) by {
            assert(pre[i] == t.events@[i]);
            assert(pre[i] == self.events@[i]);
        }
        assert(pre[k + c] == t.events@[k + c]);
        assert(t.events@[k + c] is CounterAttack);
        if cut_at is Some {
            assert(pre[k] == t.events@[k]);
            assert(t.events@[k] is Truncated);
        } else {
            assert forall|i: int| 0 <= i < t.events@.len() implies !(#[trigger] t.events@[i] is Truncated) by {
                if i < k {
                    assert(step_event(t.events@[i]));
                }
            }
        }
        if self.earns_bonus(cut_at is Some) {
            assert(t.events@[k + c + 1] is BonusStrike);
        } else {
            assert forall|i: int| 0 <= i < t.events@.len() implies !(#[trigger] t.events@[i] is BonusStrike) by {
                if i < k {
                    assert(step_event(t.events@[i]));
                } else if i < k + c {
                    assert(pre[i] == t.events@[i]);
                }
            }
        }
        assert forall|i: int, j: int|
            0 <= i < t.events@.len() && 0 <= j < t.events@.len() && #[trigger] t.events@[i] is CounterAttack
                && #[trigger] t.events@[j] is CounterAttack implies i == j by {
            if i < k {
                assert(step_event(t.events@[i]));
            } else if i < k + c {
                assert(pre[i] == t.events@[i]);
            }
            if j < k {
                assert(step_event(t.events@[j]));
            } else if j < k + c {
                assert(pre[j] == t.events@[j]);
            }
        }
    }

    /// The result of a validation pass: the cycles the script would spend
    /// and whether it would run over; an error is reported as it is.
    pub fn finish_probe(self, outcome: Result<(), Signal>) -> (r: Result<ProbeResult, ScriptError>)
        ensures
            match outcome {
                Ok(()) => r == Ok::<ProbeResult, ScriptError>(ProbeResult { cycles_used: self.cycles_used, truncated: false }),
                Err(Signal::Truncated { .. }) => r == Ok::<ProbeResult, ScriptError>(
                    ProbeResult { cycles_used: self.cycles_used, truncated: true },
                ),
                Err(Signal::Error(e)) => r == Err::<ProbeResult, ScriptError>(e),
            },
    {
        match outcome {
            Ok(()) => Ok(ProbeResult { cycles_used: self.cycles_used, truncated: false }),
            Err(Signal::Truncated { .. }) => Ok(ProbeResult { cycles_used: self.cycles_used, truncated: true }),
            Err(Signal::Error(e)) => Err(e),
        }
    }

}

// ---------------------------------------------------------------------
// Names, fields and the bag, as a script reads them
// ---------------------------------------------------------------------

/// What `item.<field>` reads: its name, its kind, its bonus.
pub open spec fn item_field_spec(item: Item, field: Seq<char>) -> Result<FieldSpec, Seq<char>> {
    if field == "nome"@ {
        Ok(FieldSpec::Text(item.name@))
    } else if field == "tipo"@ {
        Ok(FieldSpec::Text(kind_label(item.kind)))
    } else if field == "bonus"@ {
        Ok(FieldSpec::Number(item.bonus_damage as int))
    } else {
        Err(unknown_item_field_msg(field))
    }
}

pub fn item_field(item: &Item, field: &str, line: usize) -> (r: Result<FieldValue, Signal>)
    ensures
        field_matches(r, item_field_spec(*item, field@), line),
{
    if str_eq(field, "nome") {
        Ok(FieldValue::Text(item.name.clone()))
    } else if str_eq(field, "tipo") {
        let mut t = String::new();
        push_str(&mut t, item.kind.label());
        Ok(FieldValue::Text(t))
    } else if str_eq(field, "bonus") {
        Ok(FieldValue::Number(item.bonus_damage as i64))
    } else {
        Err(error_at(line, quoted("campo desconhecido em item: '", field, "'")))
    }
}

/// `magia.Fogo` is `magia["fogo"]`: the field names the item, in lower case.
pub fn collection_item(kind: ItemKind, field: &str) -> (r: Item)
    ensures
        r.kind == kind,
        r.name@ == lowercase(field@),
        r.bonus_damage == 0,
{
    Item { kind, name: to_lowercase(field), bonus_damage: 0 }
}

/// The meaning of a bare name before any variable: `eu`, `inimigo`, or a
/// collection of items.
pub open spec fn builtin_of(name: Seq<char>) -> Option<Builtin> {
    if name == "eu"@ {
        Some(Builtin::Entity(Target::Me))
    } else if name == "inimigo"@ {
        Some(Builtin::Entity(Target::Enemy))
    } else {
        match kind_from_word(name) {
            Some(k) => Some(Builtin::Collection(k)),
            None => None,
        }
    }
}

pub fn builtin_ident(name: &str) -> (r: Option<Builtin>)
    ensures
        r == builtin_of(name@),
{
    if str_eq(name, "eu") {
        Some(Builtin::Entity(Target::Me))
    } else if str_eq(name, "inimigo") {
        Some(Builtin::Entity(Target::Enemy))
    } else {
        match ItemKind::from_ident(name) {
            Some(k) => Some(Builtin::Collection(k)),
            None => None,
        }
    }
}

/// Resolves a call: a native action first, then a function of the player,
/// and only then an error. A player function can never hide a native one.
pub fn resolve_call(name: &str, funcs: &Vec<(String, usize)>, line: usize) -> (r: Result<Callee, Signal>)
    ensures
        native_cost(name@) is Some ==> r == Ok::<Callee, Signal>(Callee::Native(native_cost(name@)->Some_0)),
        native_cost(name@) is None && has_func(funcs_view(funcs@), name@) ==> (r matches Ok(Callee::User(ix))
            && exists|k: int|
            0 <= k < funcs@.len() && #[trigger] funcs@[k].0@ == name@ && funcs@[k].1 == ix && forall|j: int|
                0 <= j < k ==> funcs@[j].0@ != name@),
        native_cost(name@) is None && !has_func(funcs_view(funcs@), name@) ==> (r matches Err(Signal::Error(e))
            && e.line == line && e.message@ == unknown_call_msg(name@)),
{
    match call_cost(name) {
        Some(c) => {
            return Ok(Callee::Native(c));
        },
        None => {},
    }
    let n = funcs.len();
    let mut i: usize = 0;
    while i < n
        invariant
            n == funcs@.len(),
            i <= n,
            native_cost(name@) is None,
            forall|k: int| 0 <= k < i ==> funcs@[k].0@ != name@,
        decreases n - i,
    {
        if str_eq(funcs[i].0.as_str(), name) {
            assert(funcs_view(funcs@)[i as int].0 == name@);
            return Ok(Callee::User(funcs[i].1));
        }
        i += 1;
    }
    assert forall|k: int| 0 <= k < funcs_view(funcs@).len() implies #[trigger] funcs_view(funcs@)[k].0 != name@ by {
        assert(funcs_view(funcs@)[k].0 == funcs@[k].0@);
    }
    Err(error_at(line, quoted("funcao desconhecida: '", name, "'")))
}

/// The items of the bag as `selecionar()` examines them, in the bag's
/// order, each with its kind, name and bonus.
pub fn bag_candidates(bag: &crate::inventory::Bag) -> (r: Vec<Item>)
    ensures
        r@.len() == bag.0@.len(),
        forall|i: int|
            0 <= i < r@.len() ==> (#[trigger] r@[i]).kind == bag.0@[i].0.kind && r@[i].name == bag.0@[i].0.name
                && r@[i].bonus_damage == bag.0@[i].0.bonus_damage,
{
    let mut out: Vec<Item> = Vec::new();
    let n = bag.0.len();
    let mut i: usize = 0;
    while i < n
        invariant
            n == bag.0@.len(),
            i <= n,
            out@.len() == i,
            forall|j: int|
                0 <= j < i ==> (#[trigger] out@[j]).kind == bag.0@[j].0.kind && out@[j].name == bag.0@[j].0.name
                    && out@[j].bonus_damage == bag.0@[j].0.bonus_damage,
        decreases n - i,
    {
        let entry = &bag.0[i].0;
        out.push(Item { kind: entry.kind, name: entry.name.clone(), bonus_damage: entry.bonus_damage });
        i += 1;
    }
    out
}

// ---------------------------------------------------------------------
// A turn against a monster's real state
// ---------------------------------------------------------------------

/// The start of a turn against a monster: its posture flips, the
/// inspection is forgotten, the charge grows; returns whether this turn's
/// blow is the special one.
pub fn begin_monster_turn(monster: &mut MonsterState) -> (r: bool)
    ensures
        final(monster).spec == old(monster).spec,
        final(monster).life == old(monster).life,
        final(monster).posture == posture_toggled(old(monster).posture),
        !final(monster).inspected_this_turn,
        final(monster).charge == charged(old(monster).charge as int),
        r == final(monster).is_special_ready(),
{
    monster.begin_turn();
    monster.special_ready()
}

/// The end of a turn against a monster: it keeps the life the turn left
/// it, and spends its charge when its blow was the special one.
pub fn end_monster_turn(monster: &mut MonsterState, result: &TurnResult)
    ensures
        final(monster).spec == old(monster).spec,
        final(monster).life == result.enemy_life,
        final(monster).posture == old(monster).posture,
        final(monster).inspected_this_turn == old(monster).inspected_this_turn,
        has_special_blow(result.events@) ==> final(monster).charge == 0,
        !has_special_blow(result.events@) ==> final(monster).charge == old(monster).charge,
{
    monster.life = result.enemy_life;
    let n = result.events.len();
    let mut i: usize = 0;
    while i < n
        invariant
            n == result.events@.len(),
            i <= n,
            monster.spec == old(monster).spec,
            monster.life == result.enemy_life,
            monster.posture == old(monster).posture,
            monster.inspected_this_turn == old(monster).inspected_this_turn,
            monster.charge == old(monster).charge,
            forall|j: int| 0 <= j < i ==> !(#[trigger] result.events@[j] matches TurnEvent::CounterAttack { special: true, .. }),
        decreases n - i,
    {
        match &result.events[i] {
            TurnEvent::CounterAttack { special: true, .. } => {
                monster.consume_charge();
                return;
            },
            _ => {},
        }
        i += 1;
    }
}

} // verus!
