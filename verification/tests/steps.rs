use piiramid::monsters::{data, MonsterSpec, Posture, Weakness};
use piiramid::script::ast::{Stmt, StmtKind};
use piiramid::script::parser::parse;
use piiramid::script::step::{SelectStep, StmtAction, StmtEvent, StmtPhase};
use piiramid::script::value::{Item, ItemKind};
use piiramid::script::vm::{count_stmts, ArgValue, Signal, TurnEvent, Vm};

fn vm_with_budget(budget: u32) -> Vm {
    Vm::new(budget, 100, 100, 100, 100, Posture::Guarda, Weakness::ExigeGuarda, false, None, None)
}

fn kind_of(src: &str) -> StmtKind {
    parse(src).unwrap().remove(0).kind
}

/// Runs the steps of one statement, answering conditions from `conds` in
/// order and ranges with `range`; returns the actions asked for.
fn drive(m: &mut Vm, kind: &StmtKind, conds: &[bool], range: (i64, i64)) -> Result<Vec<StmtAction>, Signal> {
    let mut at = StmtPhase::Start;
    let mut ev = StmtEvent::Begin;
    let mut conds = conds.iter();
    let mut actions = Vec::new();
    loop {
        let (next, action) = m.step_stmt(kind, 1, at, ev)?;
        actions.push(action);
        at = next;
        ev = match action {
            StmtAction::Finish => return Ok(actions),
            StmtAction::EvalCond => StmtEvent::Cond(*conds.next().unwrap()),
            StmtAction::EvalRange => StmtEvent::Range(range.0, range.1),
            _ => StmtEvent::BodyDone,
        };
    }
}

#[test]
fn while_charges_every_test_of_its_condition_the_last_included() {
    let k = kind_of("while x:\n    esperar()\n");
    let mut m = vm_with_budget(20);
    let acts = drive(&mut m, &k, &[true, true, true, false], (0, 0)).unwrap();
    assert_eq!(m.cycles_used, 4);
    assert_eq!(acts.iter().filter(|a| **a == StmtAction::RunBody).count(), 3);
    assert_eq!(*acts.last().unwrap(), StmtAction::Finish);
}

#[test]
fn for_charges_once_per_index_and_binds_them_in_order() {
    let k = kind_of("for i in 0..3:\n    esperar()\n");
    let mut m = vm_with_budget(20);
    let acts = drive(&mut m, &k, &[], (2, 5)).unwrap();
    assert_eq!(m.cycles_used, 3);
    let at: Vec<i64> = acts.iter().filter_map(|a| if let StmtAction::RunBodyAt(i) = a { Some(*i) } else { None }).collect();
    assert_eq!(at, vec![2, 3, 4]);
    let mut m = vm_with_budget(20);
    drive(&mut m, &k, &[], (5, 2)).unwrap();
    assert_eq!(m.cycles_used, 0);
}

#[test]
fn if_charges_one_branch_and_picks_the_block() {
    let k = kind_of("if x:\n    esperar()\nelse:\n    esperar()\n");
    let mut m = vm_with_budget(20);
    assert_eq!(drive(&mut m, &k, &[false], (0, 0)).unwrap(), vec![StmtAction::EvalCond, StmtAction::RunElse, StmtAction::Finish]);
    assert_eq!(m.cycles_used, 1);
    let k = kind_of("if x:\n    esperar()\n");
    let mut m = vm_with_budget(20);
    assert_eq!(drive(&mut m, &k, &[false], (0, 0)).unwrap(), vec![StmtAction::EvalCond, StmtAction::Finish]);
}

#[test]
fn function_definitions_and_plain_statements_charge_nothing() {
    let k = kind_of("func f():\n    esperar()\n");
    let mut m = vm_with_budget(20);
    assert_eq!(drive(&mut m, &k, &[], (0, 0)).unwrap(), vec![StmtAction::Finish]);
    let k = kind_of("x = 3\n");
    assert_eq!(drive(&mut m, &k, &[], (0, 0)).unwrap(), vec![StmtAction::Eval, StmtAction::Finish]);
    assert_eq!(m.cycles_used, 0);
}

#[test]
fn a_loop_over_budget_is_cut_with_nothing_spent() {
    let k = kind_of("while x:\n    esperar()\n");
    let mut m = vm_with_budget(2);
    match drive(&mut m, &k, &[true, true, true], (0, 0)) {
        Err(Signal::Truncated { line: 1 }) => {}
        other => panic!("expected a cut, got {other:?}"),
    }
    assert_eq!(m.cycles_used, 2);
}

#[test]
fn selection_charges_each_candidate_until_the_first_match() {
    let mut m = vm_with_budget(20);
    assert_eq!(m.select_next(4, 0, 3, false).unwrap(), SelectStep::Examine(0));
    assert_eq!(m.select_next(4, 1, 3, false).unwrap(), SelectStep::Examine(1));
    assert_eq!(m.select_next(4, 2, 3, true).unwrap(), SelectStep::Found);
    assert_eq!(m.cycles_used, 2);
    assert_eq!(m.events, vec![TurnEvent::Selected { line: 4, examined: 2, found: true }]);
    let mut m = vm_with_budget(20);
    assert_eq!(m.select_next(4, 0, 0, false).unwrap(), SelectStep::NotFound);
    assert_eq!(m.cycles_used, 0);
}

fn attack(m: &mut Vm, name: &str) {
    m.begin_native_call("atacar", 1).unwrap();
    m.apply_native("atacar", vec![ArgValue::Item(Item { kind: ItemKind::Espada, name: name.to_string(), bonus_damage: 0 })], 1)
        .unwrap();
}

fn size_charged(src: &str, spec: &MonsterSpec) -> Vm {
    let program: Vec<Stmt> = parse(src).unwrap();
    assert!(count_stmts(&program).is_some());
    let mut m = Vm::new(spec.cycle_budget, 100, 100, spec.max_life, spec.max_life, Posture::Guarda, spec.weakness, false, None, None);
    m.charge_program_size(&program).unwrap();
    m
}

#[test]
fn the_reference_scripts_fit_the_calibrated_budgets() {
    // zombie: three attacks
    let spec = data::zombie();
    let mut m = size_charged(&"atacar(espada.Ferro)\n".repeat(3), &spec);
    for _ in 0..3 {
        attack(&mut m, "ferro");
    }
    assert!(m.cycles_used <= spec.cycle_budget);
    // beetle, on a turn in guard: the test and five attacks
    let spec = data::beetle();
    let src = "if inimigo.postura == \"guarda\":\n".to_string() + &"    atacar(espada.Bronze)\n".repeat(5);
    let mut m = size_charged(&src, &spec);
    m.step_stmt(&kind_of(&src), 1, StmtPhase::Start, StmtEvent::Begin).unwrap();
    for _ in 0..5 {
        attack(&mut m, "bronze");
    }
    assert_eq!(m.cycles_used, spec.cycle_budget);
    // Aker, on a turn in guard: inspection, the test and four attacks
    let spec = data::guardiao();
    let src = "inspecionar()\nif inimigo.postura == \"guarda\":\n".to_string()
        + &"    atacar(espada.Bronze)\n".repeat(4)
        + "else:\n    esperar()\n";
    let mut m = size_charged(&src, &spec);
    m.begin_native_call("inspecionar", 1).unwrap();
    m.apply_native("inspecionar", vec![], 1).unwrap();
    m.step_stmt(&kind_of("if x:\n    esperar()\nelse:\n    esperar()\n"), 2, StmtPhase::Start, StmtEvent::Begin).unwrap();
    for _ in 0..4 {
        attack(&mut m, "bronze");
    }
    assert_eq!(m.cycles_used, spec.cycle_budget);
    assert_eq!(m.enemy_life, spec.max_life - 48);
    // Apagado: three calls of a function holding one attack
    let spec = data::sentinela();
    let mut m = size_charged(&("func golpe():\n    atacar(espada.Bronze)\n\n".to_string() + &"golpe()\n".repeat(3)), &spec);
    for _ in 0..3 {
        m.begin_user_call(1).unwrap();
        m.enter_user_call("golpe", 0, 1).unwrap();
        attack(&mut m, "bronze");
        m.leave_user_call();
    }
    assert_eq!(m.cycles_used, spec.cycle_budget);
    assert_eq!(m.enemy_life, spec.max_life - 36);
    // Chabti-Mor: two invocations, then two attacks
    let spec = data::necroguardiao();
    let mut m = size_charged(
        &("invocar a:\n    esperar()\ninvocar b:\n    esperar()\n".to_string() + &"atacar(espada.Bronze)\n".repeat(2)),
        &spec,
    );
    for _ in 0..2 {
        let saved = m.enter_invoke(1).unwrap();
        m.begin_native_call("esperar", 2).unwrap();
        m.apply_native("esperar", vec![], 2).unwrap();
        m.leave_invoke(saved, Ok(())).unwrap();
    }
    attack(&mut m, "bronze");
    attack(&mut m, "bronze");
    assert!(m.cycles_used < spec.cycle_budget);
    assert_eq!(m.enemy_life, spec.max_life - 24);
}

#[test]
fn settlement_works_on_any_values_whose_arithmetic_fits_i32() {
    let m = Vm::new(10, i32::MAX, i32::MAX, 2_000_000_000, 2_000_000_000, Posture::Guarda, Weakness::ExigeGuarda, false, None, None);
    assert!(m.can_settle(false, 400_000_000, true));
    assert!(!m.can_settle(false, 500_000_000, true));
    assert!(!m.can_settle(true, 1_500_000_000, false));
    let r = m.finish_turn(Ok(()), 400_000_000, true).unwrap();
    assert_eq!(r.player_life, i32::MAX - 1_000_000_000);
    assert!(!r.truncated);
    let m = Vm::new(10, 50, 100, 100, 100, Posture::Guarda, Weakness::ExigeGuarda, false, None, None);
    let r = m.finish_turn(Ok(()), -7, true).unwrap();
    // a negative blow: five halves of -7, rounded toward zero, is -17
    assert_eq!(r.player_life, 67);
}

#[test]
fn an_attack_whose_damage_would_overflow_is_refused_by_the_check() {
    let m = Vm::new(10, 100, 100, i32::MIN + 5, 100, Posture::Guarda, Weakness::ExigeGuarda, false, None, None);
    let it = Item { kind: ItemKind::Espada, name: "bronze".to_string(), bonus_damage: 0 };
    assert!(!m.can_apply_native("atacar", &it));
    assert!(m.can_apply_native("defender", &it));
    let m = vm_with_budget(10);
    assert!(m.can_apply_native("atacar", &it));
    assert!(m.can_apply_native("curar", &it));
}
