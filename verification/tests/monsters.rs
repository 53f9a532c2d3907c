use piiramid::monsters::{data, phase, Element, MonsterState, Posture, Weakness, CHARGE_PER_TURN, PHASE_COUNT};
use piiramid::numtext::{i32_text, u64_text};

#[test]
fn phases_follow_the_bestiary_order() {
    let titles: Vec<&str> = (0..PHASE_COUNT).map(|i| phase(i).unwrap().1.title).collect();
    assert_eq!(titles, vec!["Mumia", "Zumbi", "Escaravelho", "Esfinge", "Aker", "Apagado", "Chabti-Mor"]);
    assert!(phase(PHASE_COUNT).is_none());
}

#[test]
fn element_from_name_and_posture_flip() {
    assert_eq!(Element::from_name("fogo"), Element::Fogo);
    assert_eq!(Element::from_name("agua"), Element::Agua);
    assert_eq!(Element::from_name("terra"), Element::Terra);
    assert_eq!(Element::from_name("Fogo"), Element::Nenhum);
    assert_eq!(Posture::Guarda.toggled(), Posture::Aberta);
    assert_eq!(Posture::Guarda.toggled().toggled(), Posture::Guarda);
    assert_eq!(Posture::Aberta.as_str(), "aberta");
}

#[test]
fn special_blow_comes_every_third_turn() {
    let mut m = MonsterState::new(data::sphinx());
    let mut ready = Vec::new();
    for _ in 0..6 {
        m.begin_turn();
        ready.push(m.special_ready());
        if m.special_ready() {
            m.consume_charge();
        }
    }
    assert_eq!(ready, vec![false, false, true, false, false, true]);
    assert_eq!(CHARGE_PER_TURN, 7);
}

#[test]
fn monster_state_starts_full_and_alive() {
    let m = MonsterState::new(data::zombie());
    assert_eq!(m.life, m.spec.max_life);
    assert!(m.alive());
    assert_eq!(m.posture, Posture::Guarda);
    assert!(matches!(data::zombie().weakness, Weakness::Eficiencia { .. }));
}

#[test]
fn decimal_text_of_numbers() {
    assert_eq!(u64_text(0).into_iter().collect::<String>(), "0");
    assert_eq!(u64_text(1234).into_iter().collect::<String>(), "1234");
    assert_eq!(i32_text(-45).into_iter().collect::<String>(), "-45");
    assert_eq!(i32_text(i32::MIN).into_iter().collect::<String>(), "-2147483648");
}

#[test]
fn charge_grows_by_seven_and_is_capped_at_twenty() {
    let mut m = MonsterState::new(data::mummy());
    let mut seen = Vec::new();
    for _ in 0..4 {
        m.begin_turn();
        seen.push(m.charge);
    }
    assert_eq!(seen, vec![7, 14, 20, 20]);
    m.charge = u32::MAX;
    m.begin_turn();
    assert_eq!(m.charge, 20);
}
