use piiramid::text::{is_control, is_letter, is_whitespace};
use piiramid::script::value::{Item, ItemKind};
use piiramid::script::vm::TurnEvent;
use piiramid::ui::duel_log::{describe_event, enum_case, event_line, LogTone};
use piiramid::ui::highlight::{highlight_line, Tone};
use piiramid::ui::wrap::wrap_text;

#[test]
fn highlight_cuts_a_line_into_coloured_segments() {
    let segs = highlight_line("if inimigo.postura == \"guarda\":");
    let texts: Vec<&str> = segs.iter().map(|(s, _)| s.as_str()).collect();
    assert_eq!(texts, vec!["if", " ", "inimigo", ".", "postura", " ", "=", "=", " ", "\"guarda\"", ":"]);
    let tones: Vec<Tone> = segs.iter().map(|(_, t)| *t).collect();
    assert_eq!(
        tones,
        vec![
            Tone::Keyword,
            Tone::Plain,
            Tone::Keyword,
            Tone::Symbol,
            Tone::Plain,
            Tone::Plain,
            Tone::Symbol,
            Tone::Symbol,
            Tone::Plain,
            Tone::Literal,
            Tone::Punct
        ]
    );
}

#[test]
fn highlight_values_numbers_and_unclosed_quotes() {
    let segs = highlight_line("atacar(magia.Fogo) 12.5 \"abc");
    assert_eq!(segs[0], ("atacar".to_string(), Tone::Keyword));
    assert_eq!(segs[4], ("Fogo".to_string(), Tone::Literal));
    assert_eq!(segs[7], ("12.5".to_string(), Tone::Literal));
    assert_eq!(segs.last().unwrap(), &("\"abc".to_string(), Tone::Literal));
    let line = "  for x in 0..3 { IF }";
    let glued: String = highlight_line(line).into_iter().map(|(s, _)| s).collect();
    assert_eq!(glued, line);
    assert!(highlight_line("IF").iter().all(|(_, t)| *t == Tone::Keyword));
}

#[test]
fn log_lines_describe_each_event() {
    let fogo = Item { kind: ItemKind::Magia, name: "fogo".into(), bonus_damage: 0 };
    assert_eq!(
        describe_event(&TurnEvent::Attacked { line: 2, item: fogo.clone(), damage: 12, effective: true }),
        ("atacar(magia.Fogo) -> acerto em cheio, 12 de dano".to_string(), LogTone::Good)
    );
    assert_eq!(
        describe_event(&TurnEvent::CounterAttack { damage: 7, blocked: true, special: false, truncated: false }),
        ("a piramide cobra o folego do turno -- golpe do turno (bloqueado pela metade): 7 de dano".to_string(), LogTone::Danger)
    );
    assert_eq!(
        describe_event(&TurnEvent::CounterAttack { damage: 50, blocked: false, special: true, truncated: true }).0,
        "orcamento estourou! golpe especial punido: 50 de dano"
    );
    assert_eq!(
        describe_event(&TurnEvent::Selected { line: 1, examined: 1, found: false }),
        ("selecionar() -> nenhum item bateu o filtro (1 item examinados)".to_string(), LogTone::Muted)
    );
    assert_eq!(describe_event(&TurnEvent::Healed { line: 1, amount: 15 }).0, "curar() -> +15 de vida");
    assert_eq!(event_line(&TurnEvent::Waited { line: 3 }), Some(2));
    assert_eq!(event_line(&TurnEvent::BonusStrike { damage: 3 }), None);
    assert_eq!(enum_case("bronze"), "Bronze");
    assert_eq!(enum_case(""), "");
}

#[test]
fn wrap_never_splits_a_word_and_counts_bytes() {
    assert_eq!(wrap_text("a bb ccc dddd", 6), vec!["a bb", "ccc", "dddd"]);
    assert_eq!(wrap_text("  palavra-enorme-sozinha  x ", 5), vec!["palavra-enorme-sozinha", "x"]);
    assert_eq!(wrap_text("", 10), Vec::<String>::new());
    // "ção" is 5 bytes in UTF-8: together with "a " it no longer fits in 7
    assert_eq!(wrap_text("a ção", 7), vec!["a ção"]);
    assert_eq!(wrap_text("a ção", 6), vec!["a", "ção"]);
}

#[test]
fn character_classes_follow_the_unicode_tables() {
    for c in ['\t', '\n', '\r', ' ', '\u{85}', '\u{a0}', '\u{2003}', '\u{3000}'] {
        assert!(is_whitespace(c), "{c:?}");
        assert_eq!(is_whitespace(c), c.is_whitespace());
    }
    for c in ['a', '_', '\u{200b}', '\u{1f}'] {
        assert_eq!(is_whitespace(c), c.is_whitespace(), "{c:?}");
    }
    for c in ['\0', '\u{1b}', '\u{7f}', '\u{85}', '\u{9f}', 'a', ' ', '\u{a0}'] {
        assert_eq!(is_control(c), c.is_control(), "{c:?}");
    }
    assert!(is_letter('a') && is_letter('Z') && is_letter('\u{e9}'));
    assert!(!is_letter('1') && !is_letter('_'));
}
