use piiramid::inventory::{Item as InvItem, Loadout, PlayerClass};
use piiramid::monsters::{data, Element, MonsterState, Posture, Weakness};
use piiramid::script::ast::StmtKind;
use piiramid::script::parser::parse;
use piiramid::script::value::{Item, ItemKind, Target};
use piiramid::script::vm::{
    bag_candidates, begin_monster_turn, builtin_ident, collect_funcs, collection_item, count_stmts, end_monster_turn,
    item_field, resolve_call, ArgValue, Builtin, Callee, FieldValue, Signal, TurnEvent, TurnResult, Vm,
    BASE_ATTACK_DAMAGE, HEAL_AMOUNT,
};

fn vm(weakness: Weakness, posture: Posture) -> Vm {
    Vm::new(20, 100, 100, 100, 100, posture, weakness, false, None, None)
}

fn item(kind: ItemKind, name: &str) -> Item {
    Item { kind, name: name.to_string(), bonus_damage: 0 }
}

fn attack(m: &mut Vm, it: Item) {
    m.begin_native_call("atacar", 1).unwrap();
    m.apply_native("atacar", vec![ArgValue::Item(it)], 1).unwrap();
}

#[test]
fn duplo_selo_label_covers_new_variant() {
    assert_eq!(Weakness::DuploSelo.label(), "EXIGE GUARDA E INSPECAO");
}

#[test]
fn exige_nomeacao_label_covers_new_variant() {
    assert_eq!(Weakness::ExigeNomeacao.label(), "SO RESPEITA GOLPE NOMEADO");
}

#[test]
fn correct_element_deals_full_damage_and_wrong_one_an_eighth() {
    let mut m = vm(Weakness::Elemento(Element::Fogo), Posture::Guarda);
    attack(&mut m, item(ItemKind::Magia, "fogo"));
    assert_eq!(m.enemy_life, 100 - BASE_ATTACK_DAMAGE);
    attack(&mut m, item(ItemKind::Magia, "agua"));
    assert_eq!(m.enemy_life, 100 - BASE_ATTACK_DAMAGE - BASE_ATTACK_DAMAGE / 8);
    match (&m.events[0], &m.events[1]) {
        (TurnEvent::Attacked { effective: true, damage: 12, line: 1, .. }, TurnEvent::Attacked { effective: false, damage: 1, .. }) => {}
        other => panic!("unexpected events: {other:?}"),
    }
    assert_eq!(m.cycles_used, 4);
}

#[test]
fn hidden_weakness_blocks_damage_until_inspected() {
    let mut m = vm(Weakness::RequerInspecao, Posture::Guarda);
    attack(&mut m, item(ItemKind::Espada, "bronze"));
    assert_eq!(m.enemy_life, 100);
    m.begin_native_call("inspecionar", 2).unwrap();
    m.apply_native("inspecionar", vec![], 2).unwrap();
    attack(&mut m, item(ItemKind::Espada, "bronze"));
    assert_eq!(m.enemy_life, 88);
}

#[test]
fn guard_weakness_depends_on_posture_and_double_seal_on_both() {
    let m = vm(Weakness::ExigeGuarda, Posture::Aberta);
    assert_eq!(m.resolve_attack_by_weakness(&item(ItemKind::Espada, "x")), (1, false));
    let m = vm(Weakness::ExigeGuarda, Posture::Guarda);
    assert_eq!(m.resolve_attack_by_weakness(&item(ItemKind::Espada, "x")), (12, true));
    let mut m = vm(Weakness::DuploSelo, Posture::Guarda);
    assert_eq!(m.resolve_attack_by_weakness(&item(ItemKind::Espada, "x")), (1, false));
    m.enemy_inspected = true;
    assert_eq!(m.resolve_attack_by_weakness(&item(ItemKind::Espada, "x")), (12, true));
    m.enemy_posture = Posture::Aberta;
    assert_eq!(m.resolve_attack_by_weakness(&item(ItemKind::Espada, "x")), (1, false));
}

#[test]
fn named_strike_needs_a_function_and_double_invocation_needs_two_blocks() {
    let mut m = vm(Weakness::ExigeNomeacao, Posture::Guarda);
    assert_eq!(m.resolve_attack_by_weakness(&item(ItemKind::Espada, "x")).1, false);
    m.begin_user_call(1).unwrap();
    m.enter_user_call("golpe", 0, 1).unwrap();
    assert_eq!(m.resolve_attack_by_weakness(&item(ItemKind::Espada, "x")), (12, true));
    m.leave_user_call();
    assert_eq!(m.depth, 0);

    let mut m = vm(Weakness::ExigeInvocacaoDupla, Posture::Guarda);
    for k in 0..2 {
        let saved = m.enter_invoke(1).unwrap();
        assert_eq!(m.cycle_budget, 4);
        m.leave_invoke(saved, Ok(())).unwrap();
        assert_eq!(m.cycles_used, 2 * (k + 1));
    }
    assert_eq!(m.resolve_attack_by_weakness(&item(ItemKind::Espada, "x")), (12, true));
}

#[test]
fn efficiency_weakness_ignores_the_size_charge() {
    let program = parse("atacar(espada.Ferro)\natacar(espada.Ferro)\n").unwrap();
    let mut m = Vm::new(20, 100, 100, 100, 100, Posture::Guarda, Weakness::Eficiencia { max_ciclos: 2 }, false, None, None);
    m.charge_program_size(&program).unwrap();
    assert_eq!(m.size_charge, 4);
    attack(&mut m, item(ItemKind::Espada, "ferro"));
    assert_eq!(m.events.len(), 1);
    assert!(matches!(m.events[0], TurnEvent::Attacked { effective: true, .. }));
    attack(&mut m, item(ItemKind::Espada, "ferro"));
    assert!(matches!(m.events[1], TurnEvent::Attacked { effective: false, .. }));
}

#[test]
fn equipped_item_and_class_add_their_bonuses() {
    let mut lo = Loadout::default();
    lo.arma = Some(InvItem { id: "k".into(), kind: ItemKind::Espada, name: "Ferro".into(), bonus_damage: 3 });
    let m = Vm::new(20, 100, 100, 100, 100, Posture::Guarda, Weakness::ExigeGuarda, false, Some(lo), Some(PlayerClass::Guerreiro));
    // name compared without case
    assert_eq!(m.equipped_bonus(&item(ItemKind::Espada, "ferro")), 3);
    assert_eq!(m.equipped_bonus(&item(ItemKind::Espada, "bronze")), 0);
    assert_eq!(m.class_bonus(&item(ItemKind::Espada, "bronze")), 4);
    assert_eq!(m.class_bonus(&item(ItemKind::Magia, "fogo")), 0);
    assert_eq!(m.resolve_attack(&item(ItemKind::Espada, "ferro")), (12 + 3 + 4, true));
}

#[test]
fn heal_never_goes_past_the_maximum() {
    let mut m = Vm::new(20, 90, 100, 100, 100, Posture::Guarda, Weakness::ExigeGuarda, false, None, None);
    m.begin_native_call("curar", 1).unwrap();
    m.apply_native("curar", vec![ArgValue::Item(item(ItemKind::Pocao, "vida"))], 1).unwrap();
    assert_eq!(m.player_life, 100);
    assert_eq!(m.events[0], TurnEvent::Healed { line: 1, amount: HEAL_AMOUNT });
}

#[test]
fn wrong_arguments_are_errors_at_the_line() {
    let mut m = vm(Weakness::ExigeGuarda, Posture::Guarda);
    match m.apply_native("atacar", vec![], 3) {
        Err(Signal::Error(e)) => {
            assert_eq!(e.line, 3);
            assert_eq!(e.message, "'atacar' espera 1 argumento(s), recebeu 0");
        }
        other => panic!("{other:?}"),
    }
    match m.apply_native("defender", vec![ArgValue::Other("numero")], 4) {
        Err(Signal::Error(e)) => assert_eq!(e.message, "'defender' espera um item (ex.: espada[\"fogo\"]), recebeu numero"),
        other => panic!("{other:?}"),
    }
    match m.apply_native("esperar", vec![ArgValue::Other("numero")], 5) {
        Err(Signal::Error(e)) => assert_eq!(e.message, "'esperar' espera 0 argumento(s), recebeu 1"),
        other => panic!("{other:?}"),
    }
    assert!(m.events.is_empty());
}

#[test]
fn dry_run_changes_nothing_in_the_fight() {
    let mut m = Vm::new(20, 100, 100, 100, 100, Posture::Guarda, Weakness::ExigeGuarda, true, None, None);
    attack(&mut m, item(ItemKind::Espada, "x"));
    m.apply_native("defender", vec![ArgValue::Item(item(ItemKind::Escudo, "x"))], 1).unwrap();
    assert_eq!(m.enemy_life, 100);
    assert!(m.shielded.is_none());
    assert!(m.events.is_empty());
    assert_eq!(m.cycles_used, 2);
}

#[test]
fn budget_overflow_truncates_without_spending() {
    let mut m = Vm::new(3, 100, 100, 100, 100, Posture::Guarda, Weakness::ExigeGuarda, false, None, None);
    m.charge(1, 2).unwrap();
    match m.charge(7, 2) {
        Err(Signal::Truncated { line }) => assert_eq!(line, 7),
        other => panic!("{other:?}"),
    }
    assert_eq!(m.cycles_used, 2);
}

#[test]
fn invocation_limit_and_call_limits() {
    let mut m = vm(Weakness::ExigeGuarda, Posture::Guarda);
    for _ in 0..2 {
        let saved = m.enter_invoke(1).unwrap();
        // running out of the block's own budget only ends the block
        assert!(m.charge(1, 5).is_err());
        m.leave_invoke(saved, Err(Signal::Truncated { line: 1 })).unwrap();
    }
    match m.enter_invoke(9) {
        Err(Signal::Error(e)) => assert_eq!(e.message, "limite de invocacoes por turno excedido (maximo 2)"),
        other => panic!("{other:?}"),
    }
    match m.enter_user_call("golpe", 2, 4) {
        Err(Signal::Error(e)) => assert_eq!(e.message, "funcao 'golpe' nao recebe argumento, mas foi chamada com 2"),
        other => panic!("{other:?}"),
    }
    let mut deep = vm(Weakness::ExigeGuarda, Posture::Guarda);
    for _ in 0..32 {
        deep.enter_user_call("r", 0, 1).unwrap();
    }
    match deep.enter_user_call("r", 0, 1) {
        Err(Signal::Error(e)) => assert_eq!(e.message, "'r': profundidade maxima de chamada excedida (limite 32)"),
        other => panic!("{other:?}"),
    }
}

#[test]
fn size_of_the_written_program_counts_every_statement_once() {
    let program = parse("func golpe():\n    atacar(espada.Bronze)\n\ngolpe()\ngolpe()\nif x:\n    a()\nelse:\n    b()\n").unwrap();
    assert_eq!(count_stmts(&program), Some(7));
    let mut m = Vm::new(13, 100, 100, 100, 100, Posture::Guarda, Weakness::ExigeGuarda, false, None, None);
    match m.charge_program_size(&program) {
        Err(Signal::Truncated { line }) => assert_eq!(line, 1),
        other => panic!("{other:?}"),
    }
    let mut m = Vm::new(14, 100, 100, 100, 100, Posture::Guarda, Weakness::ExigeGuarda, false, None, None);
    m.charge_program_size(&program).unwrap();
    assert_eq!((m.cycles_used, m.size_charge), (14, 14));
}

#[test]
fn functions_are_collected_before_running_and_names_are_checked() {
    let program = parse("golpe()\nfunc golpe():\n    atacar(espada.Bronze)\nfunc outro():\n    esperar()\n").unwrap();
    let funcs = collect_funcs(&program).unwrap();
    assert_eq!(funcs, vec![("golpe".to_string(), 1), ("outro".to_string(), 2)]);
    assert!(matches!(program[funcs[0].1].kind, StmtKind::FuncDef { .. }));
    assert_eq!(resolve_call("outro", &funcs, 1).unwrap(), Callee::User(2));
    assert_eq!(resolve_call("atacar", &funcs, 1).unwrap(), Callee::Native(2));
    match resolve_call("sumiu", &funcs, 6) {
        Err(Signal::Error(e)) => {
            assert_eq!(e.line, 6);
            assert_eq!(e.message, "funcao desconhecida: 'sumiu'");
        }
        other => panic!("{other:?}"),
    }

    let err = collect_funcs(&parse("func a():\n    esperar()\nfunc a():\n    esperar()\n").unwrap()).unwrap_err();
    assert_eq!(err.line, 3);
    assert_eq!(err.message, "'a' ja ecoa neste script - duas func com o mesmo nome confundem a Piramide, escolha outro");

    let err = collect_funcs(&parse("func atacar():\n    esperar()\n").unwrap()).unwrap_err();
    assert_eq!(err.line, 1);
    assert_eq!(err.message, "'atacar' ja e um ritual conhecido pela Piramide - escolha outro nome pro seu 'func atacar()'");
}

#[test]
fn fields_and_names_read_as_the_script_sees_them() {
    let mut m = vm(Weakness::ExigeGuarda, Posture::Aberta);
    m.charge(1, 5).unwrap();
    assert_eq!(m.entity_field(Target::Enemy, "vida", 1).unwrap(), FieldValue::Number(100));
    assert_eq!(m.entity_field(Target::Enemy, "postura", 1).unwrap(), FieldValue::Text("aberta".into()));
    assert_eq!(m.entity_field(Target::Me, "ciclos", 1).unwrap(), FieldValue::Number(15));
    match m.entity_field(Target::Me, "postura", 2) {
        Err(Signal::Error(e)) => assert_eq!(e.message, "campo desconhecido: 'postura'"),
        other => panic!("{other:?}"),
    }
    let it = Item { kind: ItemKind::Magia, name: "fogo".into(), bonus_damage: 8 };
    assert_eq!(item_field(&it, "tipo", 1).unwrap(), FieldValue::Text("magia".into()));
    assert_eq!(item_field(&it, "bonus", 1).unwrap(), FieldValue::Number(8));
    assert_eq!(builtin_ident("inimigo"), Some(Builtin::Entity(Target::Enemy)));
    assert_eq!(builtin_ident("escudo"), Some(Builtin::Collection(ItemKind::Escudo)));
    assert_eq!(builtin_ident("x"), None);
    assert_eq!(collection_item(ItemKind::Magia, "Fogo"), item(ItemKind::Magia, "fogo"));
}

fn settle(m: Vm, outcome: Result<(), Signal>, base: i32, special: bool) -> TurnResult {
    m.finish_turn(outcome, base, special).unwrap()
}

#[test]
fn monster_strikes_every_turn_and_truncating_doubles_it() {
    let mut m = vm(Weakness::ExigeGuarda, Posture::Guarda);
    m.charge(1, 3).unwrap();
    let r = settle(m, Ok(()), 10, false);
    assert_eq!(r.player_life, 90);
    assert_eq!(r.events[0], TurnEvent::CounterAttack { damage: 10, blocked: false, special: false, truncated: false });
    // 17 cycles left: the bonus strike
    assert_eq!(r.events[1], TurnEvent::BonusStrike { damage: 17 });
    assert_eq!(r.enemy_life, 83);

    let m = vm(Weakness::ExigeGuarda, Posture::Guarda);
    let r = settle(m, Err(Signal::Truncated { line: 4 }), 10, true);
    assert!(r.truncated);
    assert_eq!(r.events[0], TurnEvent::Truncated { line: 4 });
    assert_eq!(r.events[1], TurnEvent::CounterAttack { damage: 50, blocked: false, special: true, truncated: true });
    assert_eq!(r.player_life, 50);
    assert_eq!(r.enemy_life, 100);
}

#[test]
fn shield_halves_and_its_bonus_reduces_never_below_zero() {
    let mut lo = Loadout::default();
    lo.escudo = Some(InvItem { id: "s".into(), kind: ItemKind::Escudo, name: "bronze".into(), bonus_damage: 2 });
    let mut m = Vm::new(20, 100, 100, 100, 100, Posture::Guarda, Weakness::ExigeGuarda, false, Some(lo.clone()), None);
    m.apply_native("defender", vec![ArgValue::Item(item(ItemKind::Escudo, "bronze"))], 1).unwrap();
    let r = settle(m, Ok(()), 10, false);
    assert_eq!(r.events[1], TurnEvent::CounterAttack { damage: 3, blocked: true, special: false, truncated: false });
    assert_eq!(r.player_life, 97);

    let mut m = Vm::new(20, 100, 100, 100, 100, Posture::Guarda, Weakness::ExigeGuarda, false, Some(lo), None);
    m.apply_native("defender", vec![ArgValue::Item(item(ItemKind::Escudo, "bronze"))], 1).unwrap();
    let r = settle(m, Ok(()), 2, false);
    assert_eq!(r.player_life, 100);
}

#[test]
fn truncating_is_always_strictly_worse_than_not_truncating() {
    for defend in [false, true] {
        for special in [false, true] {
            let mut a = vm(Weakness::ExigeGuarda, Posture::Guarda);
            let mut b = vm(Weakness::ExigeGuarda, Posture::Guarda);
            if defend {
                a.apply_native("defender", vec![ArgValue::Item(item(ItemKind::Escudo, "bronze"))], 1).unwrap();
                b.apply_native("defender", vec![ArgValue::Item(item(ItemKind::Escudo, "bronze"))], 1).unwrap();
            }
            let normal = settle(a, Ok(()), 10, special);
            let cut = settle(b, Err(Signal::Truncated { line: 2 }), 10, special);
            assert!(cut.player_life < normal.player_life, "defend={defend}, special={special}");
        }
    }
}

#[test]
fn empty_script_gets_no_bonus_strike_and_errors_change_nothing() {
    let m = vm(Weakness::ExigeGuarda, Posture::Guarda);
    let r = settle(m, Ok(()), 10, false);
    assert_eq!(r.events.len(), 1);
    assert_eq!(r.enemy_life, 100);
    let m = vm(Weakness::ExigeGuarda, Posture::Guarda);
    let e = m
        .finish_turn(Err(Signal::Error(piiramid::script::error::ScriptError::new(3, "x".into()))), 10, false)
        .unwrap_err();
    assert_eq!(e.line, 3);
}

#[test]
fn probe_reports_cycles_and_overflow_only() {
    let mut m = Vm::new(5, 100, 100, 100, 100, Posture::Guarda, Weakness::ExigeGuarda, true, None, None);
    m.charge(1, 4).unwrap();
    let out = m.charge(2, 4);
    let p = m.finish_probe(out.map(|_| ())).unwrap();
    assert_eq!((p.cycles_used, p.truncated), (4, true));
}

#[test]
fn monster_turn_bookkeeping_flips_posture_and_spends_special_charge() {
    let mut mon = MonsterState::new(data::mummy());
    let mut special = false;
    for _ in 0..3 {
        special = begin_monster_turn(&mut mon);
    }
    assert!(special);
    assert_eq!(mon.posture, Posture::Aberta);
    let result = TurnResult {
        events: vec![TurnEvent::CounterAttack { damage: 1, blocked: false, special: true, truncated: false }],
        cycles_used: 1,
        cycle_budget: 9,
        truncated: false,
        player_life: 50,
        enemy_life: 7,
    };
    end_monster_turn(&mut mon, &result);
    assert_eq!(mon.life, 7);
    assert_eq!(mon.charge, 0);
}

#[test]
fn bag_candidates_follow_the_bag_order() {
    let mut bag = piiramid::inventory::Bag::default();
    bag.add(InvItem { id: "a".into(), kind: ItemKind::Pocao, name: "vida".into(), bonus_damage: 0 }, 2);
    bag.add(InvItem { id: "b".into(), kind: ItemKind::Magia, name: "fogo".into(), bonus_damage: 8 }, 1);
    let c = bag_candidates(&bag);
    assert_eq!(c, vec![item(ItemKind::Pocao, "vida"), Item { kind: ItemKind::Magia, name: "fogo".into(), bonus_damage: 8 }]);
}
