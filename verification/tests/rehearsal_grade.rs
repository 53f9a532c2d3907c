use piiramid::grade::{reference_script, Grade, ReferenceRun, REFERENCE_TURN_LIMIT};
use piiramid::monsters::{data, phase, Posture, PHASE_COUNT};
use piiramid::script::parser::parse;
use piiramid::script::rehearsal::{Rehearsal, RehearsalEnd, REHEARSAL_TURN_CAP};
use piiramid::script::vm::TurnResult;

fn result(cycles: u32, truncated: bool, player_life: i32, enemy_life: i32) -> TurnResult {
    TurnResult { events: vec![], cycles_used: cycles, cycle_budget: 9, truncated, player_life, enemy_life }
}

#[test]
fn rehearsal_numbers_turns_and_reports_damage_both_ways() {
    let mut r = Rehearsal::new(100);
    assert_eq!(r.record(40, 28, &result(4, false, 90, 28)), None);
    assert_eq!(r.record(28, 16, &result(4, false, 95, 16)), None);
    assert_eq!(r.turns[0].turn, 1);
    assert_eq!(r.turns[0].damage_dealt, 12);
    assert_eq!(r.turns[0].damage_taken, 10);
    assert_eq!(r.turns[1].turn, 2);
    // a heal that outweighed the blow shows as negative damage taken
    assert_eq!(r.turns[1].damage_taken, -5);
    assert_eq!(r.record(16, 0, &result(4, false, 0, 0)), Some(RehearsalEnd::MonsterDied));
    let report = r.finish(RehearsalEnd::MonsterDied);
    assert_eq!(report.turns.len(), 3);
}

#[test]
fn rehearsal_stops_when_the_player_dies_or_at_the_cap() {
    let mut r = Rehearsal::new(10);
    assert_eq!(r.record(40, 39, &result(9, true, 0, 39)), Some(RehearsalEnd::PlayerDied));
    let mut r = Rehearsal::new(100);
    for _ in 0..REHEARSAL_TURN_CAP {
        assert!(!r.at_cap());
        assert_eq!(r.record(40, 40, &result(9, false, 100, 40)), None);
    }
    assert!(r.at_cap());
    assert_eq!(r.finish(RehearsalEnd::TurnCapReached).turns.len(), REHEARSAL_TURN_CAP);
}

#[test]
fn grade_labels() {
    assert_eq!([Grade::S, Grade::A, Grade::B, Grade::C].map(|g| g.label()), ["S", "A", "B", "C"]);
    assert!(Grade::C < Grade::B && Grade::B < Grade::A && Grade::A < Grade::S);
}

#[test]
fn every_monster_of_the_bestiary_has_a_reference_script_that_parses() {
    for i in 0..PHASE_COUNT {
        let (_, spec) = phase(i).unwrap();
        let (script, _) = reference_script(spec.title).unwrap_or_else(|| panic!("sem script de referencia para {}", spec.title));
        parse(&script).unwrap_or_else(|e| panic!("{}: {} (linha {})", spec.title, e.message, e.line));
    }
    assert_eq!(reference_script("Nao Existe No Bestiario"), None);
}

#[test]
fn reference_scripts_are_written_exactly() {
    assert_eq!(reference_script("Mumia"), Some(("atacar(magia.Fogo)\n".repeat(3), false)));
    assert_eq!(
        reference_script("Escaravelho"),
        Some(("if inimigo.postura == \"guarda\":\n".to_string() + &"    atacar(espada.Bronze)\n".repeat(5), true))
    );
    assert_eq!(
        reference_script("Aker"),
        Some((
            "inspecionar()\nif inimigo.postura == \"guarda\":\n".to_string() + &"    atacar(espada.Bronze)\n".repeat(4) + "else:\n    esperar()\n",
            true
        ))
    );
    assert_eq!(
        reference_script("Chabti-Mor"),
        Some(("invocar a:\n    esperar()\ninvocar b:\n    esperar()\n".to_string() + &"atacar(espada.Bronze)\n".repeat(2), false))
    );
}

#[test]
fn reference_run_tallies_turns_and_cycles_and_refuses_a_truncated_turn() {
    let spec = data::beetle();
    let mut run = ReferenceRun::new(&spec, true);
    assert!(run.wants_turn());
    assert!(run.absorb(&result(7, false, 100, spec.max_life - 30)));
    assert_eq!(run.posture, Posture::Aberta);
    assert!(run.absorb(&result(5, false, 100, 0)));
    assert!(!run.wants_turn());
    assert_eq!(run.outcome(), Some((2, 12)));

    let mut run = ReferenceRun::new(&spec, false);
    assert!(!run.absorb(&result(7, true, 100, 0)));
    assert_eq!(run.outcome(), None);
    assert_eq!(run.turns, 0);
    assert!(REFERENCE_TURN_LIMIT > 0);
}
