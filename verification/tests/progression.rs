use piiramid::inventory::SaveData;
use piiramid::monsters::PHASE_COUNT;
use piiramid::progression::{duel_end, phase_start_life, save_script, settle_duel, AfterDuel, DuelOutcome};

#[test]
fn phase_starts_with_full_life_when_nothing_was_kept() {
    assert_eq!(phase_start_life(None, 100), 100);
}

#[test]
fn phase_start_life_is_clamped_between_one_and_max() {
    assert_eq!(phase_start_life(Some(37), 100), 37);
    assert_eq!(phase_start_life(Some(0), 100), 1);
    assert_eq!(phase_start_life(Some(-20), 100), 1);
    assert_eq!(phase_start_life(Some(250), 100), 100);
}

#[test]
fn winning_a_phase_moves_on_and_recovers_part_of_the_missing_life() {
    let mut save = SaveData::fresh();
    let next = settle_duel(&mut save, DuelOutcome::Won, 40, 100);
    assert_eq!(next, AfterDuel::Menu);
    assert_eq!(save.current_phase, 1);
    // 40 + 60 * 9 / 10 = 94
    assert_eq!(save.player_life, Some(94));
}

#[test]
fn winning_the_last_phase_is_the_victory() {
    let mut save = SaveData::fresh();
    save.current_phase = PHASE_COUNT - 1;
    let next = settle_duel(&mut save, DuelOutcome::Won, 100, 100);
    assert_eq!(next, AfterDuel::Victory);
    assert_eq!(save.current_phase, PHASE_COUNT);
    assert_eq!(save.player_life, Some(100));
}

#[test]
fn losing_keeps_the_phase_and_gives_full_life_back() {
    let mut save = SaveData::fresh();
    save.current_phase = 3;
    save.player_life = Some(12);
    let next = settle_duel(&mut save, DuelOutcome::Lost, -5, 100);
    assert_eq!(next, AfterDuel::Defeat);
    assert_eq!(save.current_phase, 3);
    assert_eq!(save.player_life, None);
}

#[test]
fn fleeing_keeps_the_phase_and_the_life_at_least_one() {
    let mut save = SaveData::fresh();
    save.current_phase = 2;
    assert_eq!(settle_duel(&mut save, DuelOutcome::Fled, 33, 100), AfterDuel::Menu);
    assert_eq!(save.current_phase, 2);
    assert_eq!(save.player_life, Some(33));
    assert_eq!(settle_duel(&mut save, DuelOutcome::Fled, 0, 100), AfterDuel::Menu);
    assert_eq!(save.player_life, Some(1));
}

#[test]
fn a_blank_script_is_not_saved() {
    let mut save = SaveData::fresh();
    assert_eq!(save_script(&mut save, "  \n\t ".to_string()), None);
    assert_eq!(save_script(&mut save, String::new()), None);
    assert!(save.scripts.is_empty());
}

#[test]
fn saved_scripts_are_named_by_their_position() {
    let mut save = SaveData::fresh();
    assert_eq!(save_script(&mut save, "atacar(espada.Fogo)".to_string()), Some("script-1.pii".to_string()));
    assert_eq!(save_script(&mut save, "esperar()\n".to_string()), Some("script-2.pii".to_string()));
    assert_eq!(save.scripts.len(), 2);
    assert_eq!(save.scripts[0].name, "script-1.pii");
    assert_eq!(save.scripts[0].body, "atacar(espada.Fogo)");
    assert_eq!(save.scripts[1].name, "script-2.pii");
    assert_eq!(save.scripts[1].body, "esperar()\n");
}

#[test]
fn the_duel_ends_when_either_side_has_no_life() {
    assert_eq!(duel_end(0, 50), Some(DuelOutcome::Won));
    assert_eq!(duel_end(-3, 0), Some(DuelOutcome::Won));
    assert_eq!(duel_end(10, 0), Some(DuelOutcome::Lost));
    assert_eq!(duel_end(10, -7), Some(DuelOutcome::Lost));
    assert_eq!(duel_end(10, 1), None);
}
