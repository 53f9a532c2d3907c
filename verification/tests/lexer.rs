use piiramid::script::lexer::{is_ident_continue, is_ident_start, lex_operator, tokenize, TokKind};

fn kinds(src: &str) -> Vec<TokKind> {
    tokenize(src).unwrap().into_iter().map(|t| t.kind).collect()
}

#[test]
fn simple_call() {
    assert_eq!(
        kinds("atacar()"),
        vec![TokKind::Ident("atacar".into()), TokKind::LParen, TokKind::RParen, TokKind::Newline, TokKind::Eof]
    );
}

#[test]
fn indent_dedent_around_if() {
    let toks = kinds("if x:\n    atacar()\ny()\n");
    assert_eq!(
        toks,
        vec![
            TokKind::If,
            TokKind::Ident("x".into()),
            TokKind::Colon,
            TokKind::Newline,
            TokKind::Indent,
            TokKind::Ident("atacar".into()),
            TokKind::LParen,
            TokKind::RParen,
            TokKind::Newline,
            TokKind::Dedent,
            TokKind::Ident("y".into()),
            TokKind::LParen,
            TokKind::RParen,
            TokKind::Newline,
            TokKind::Eof,
        ]
    );
}

#[test]
fn braces_suppress_newlines() {
    let toks = kinds("if x {\n    atacar()\n}\n");
    assert!(!toks.contains(&TokKind::Indent));
    assert!(!toks.contains(&TokKind::Dedent));
    assert_eq!(toks.iter().filter(|k| **k == TokKind::Newline).count(), 1);
}

#[test]
fn blank_lines_and_comments_ignored() {
    let toks = kinds("atacar()\n\n# comentario\n// outro\ndefender()\n");
    assert_eq!(
        toks,
        vec![
            TokKind::Ident("atacar".into()),
            TokKind::LParen,
            TokKind::RParen,
            TokKind::Newline,
            TokKind::Ident("defender".into()),
            TokKind::LParen,
            TokKind::RParen,
            TokKind::Newline,
            TokKind::Eof,
        ]
    );
}

#[test]
fn string_and_index() {
    let toks = kinds("escudo[\"ouro\"]");
    assert_eq!(
        toks,
        vec![
            TokKind::Ident("escudo".into()),
            TokKind::LBracket,
            TokKind::Str("ouro".into()),
            TokKind::RBracket,
            TokKind::Newline,
            TokKind::Eof,
        ]
    );
}

#[test]
fn inconsistent_indent_errors() {
    let err = tokenize("if x:\n    atacar()\n  defender()\n").unwrap_err();
    assert!(err.message.contains("indentacao"));
}

#[test]
fn func_keyword_is_recognized() {
    let toks = kinds("func combo():\n    atacar()\n");
    assert_eq!(
        toks,
        vec![
            TokKind::Func,
            TokKind::Ident("combo".into()),
            TokKind::LParen,
            TokKind::RParen,
            TokKind::Colon,
            TokKind::Newline,
            TokKind::Indent,
            TokKind::Ident("atacar".into()),
            TokKind::LParen,
            TokKind::RParen,
            TokKind::Newline,
            TokKind::Dedent,
            TokKind::Eof,
        ]
    );
}

#[test]
fn number_literal_keeps_its_text_and_line() {
    let toks = tokenize("x = 12.5\ny = 3\n").unwrap();
    assert_eq!(toks[2].kind, TokKind::Number("12.5".into()));
    assert_eq!(toks[2].line, 1);
    assert_eq!(toks[6].kind, TokKind::Number("3".into()));
    assert_eq!(toks[6].line, 2);
}

#[test]
fn every_token_list_ends_with_a_single_eof_and_balanced_blocks() {
    for src in ["", "atacar()", "if x:\n    if y:\n        z()\n", "while a {\n b()\n}\n"] {
        let toks = tokenize(src).unwrap();
        assert_eq!(toks.last().map(|t| &t.kind), Some(&TokKind::Eof));
        assert_eq!(toks.iter().filter(|t| t.kind == TokKind::Eof).count(), 1);
        let indents = toks.iter().filter(|t| t.kind == TokKind::Indent).count();
        let dedents = toks.iter().filter(|t| t.kind == TokKind::Dedent).count();
        assert_eq!(indents, dedents, "blocks must close for {src:?}");
    }
}

#[test]
fn ident_character_classes() {
    assert!(is_ident_start('a') && is_ident_start('_') && is_ident_start('ç'));
    assert!(!is_ident_start('1') && !is_ident_start('('));
    assert!(is_ident_continue('1') && is_ident_continue('_') && is_ident_continue('z'));
    assert!(!is_ident_continue('.') && !is_ident_continue(' '));
}

#[test]
fn one_operator_step_gives_the_token_its_width_and_the_depth() {
    assert_eq!(lex_operator('=', Some('='), 3, 0).unwrap(), (TokKind::EqEq, 2, 0));
    assert_eq!(lex_operator('=', Some('x'), 3, 0).unwrap(), (TokKind::Assign, 1, 0));
    assert_eq!(lex_operator('.', Some('.'), 3, 0).unwrap(), (TokKind::DotDot, 2, 0));
    assert_eq!(lex_operator('(', None, 3, 4).unwrap(), (TokKind::LParen, 1, 5));
    assert_eq!(lex_operator(']', None, 3, 4).unwrap(), (TokKind::RBracket, 1, 3));
    assert_eq!(lex_operator('}', None, 3, 0).unwrap(), (TokKind::RBrace, 1, 0));
    let e = lex_operator('@', None, 7, 0).unwrap_err();
    assert_eq!((e.line, e.message.as_str()), (7, "caractere inesperado: '@'"));
}
