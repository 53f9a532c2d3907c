use piiramid::ui::code_editor::CodeEditor;

fn editor() -> CodeEditor {
    CodeEditor::new()
}

#[test]
fn typing_appends_to_line() {
    let mut ed = editor();
    for c in "atacar()".chars() {
        ed.insert_char(c);
    }
    assert_eq!(ed.lines[0], "atacar()");
    assert_eq!(ed.cursor_col, 8);
}

#[test]
fn enter_after_colon_indents() {
    let mut ed = editor();
    for c in "if x:".chars() {
        ed.insert_char(c);
    }
    ed.insert_newline();
    assert_eq!(ed.lines[1], "    ");
    assert_eq!(ed.cursor_col, 4);
}

#[test]
fn enter_after_brace_indents() {
    let mut ed = editor();
    for c in "if x {".chars() {
        ed.insert_char(c);
    }
    ed.insert_newline();
    assert_eq!(ed.lines[1], "    ");
}

#[test]
fn closing_brace_dedents() {
    let mut ed = editor();
    ed.lines[0] = "    ".to_string();
    ed.cursor_col = 4;
    ed.insert_char('}');
    assert_eq!(ed.lines[0], "}");
    assert_eq!(ed.cursor_col, 1);
}

#[test]
fn load_text_replaces_content_and_moves_cursor_to_end() {
    let mut ed = editor();
    ed.insert_snippet("velho()");
    ed.load_text("atacar(espada.Fogo)\ndefender(escudo.Bronze)");
    assert_eq!(ed.lines, vec!["atacar(espada.Fogo)".to_string(), "defender(escudo.Bronze)".to_string()]);
    assert_eq!(ed.cursor_row, 1);
    assert_eq!(ed.cursor_col, "defender(escudo.Bronze)".len());
}

#[test]
fn identifier_prefix_detects_mid_word_and_end_of_word() {
    let mut ed = editor();
    ed.insert_snippet("atacar");
    assert_eq!(ed.identifier_prefix_before_cursor(), Some((0, "atacar".to_string())));
    ed.cursor_col = 3;
    assert_eq!(ed.identifier_prefix_before_cursor(), Some((0, "ata".to_string())));
}

#[test]
fn identifier_prefix_none_right_after_non_ident_char() {
    let mut ed = editor();
    ed.insert_snippet("atacar()");
    assert_eq!(ed.identifier_prefix_before_cursor(), None);
}

#[test]
fn identifier_prefix_none_at_start_of_line() {
    let ed = editor();
    assert_eq!(ed.identifier_prefix_before_cursor(), None);
}

#[test]
fn replace_identifier_prefix_keeps_rest_of_line_intact() {
    let mut ed = editor();
    ed.insert_snippet("ata(espada.Fogo)");
    ed.cursor_col = 3;
    ed.replace_identifier_prefix(0, "atacar");
    assert_eq!(ed.lines[0], "atacar(espada.Fogo)");
    assert_eq!(ed.cursor_col, 6);
}

#[test]
fn backspace_merges_lines() {
    let mut ed = editor();
    ed.lines = vec!["ab".to_string(), "cd".to_string()];
    ed.cursor_row = 1;
    ed.cursor_col = 0;
    ed.backspace();
    assert_eq!(ed.lines, vec!["abcd".to_string()]);
    assert_eq!(ed.cursor_row, 0);
    assert_eq!(ed.cursor_col, 2);
}

#[test]
fn load_then_text_round_trips() {
    let mut ed = editor();
    for t in ["", "a", "x\n", "if x:\n    atacar()\n\ny()", "\n\n"] {
        ed.load_text(t);
        assert_eq!(ed.text(), t);
    }
    ed.load_text("");
    assert_eq!(ed.lines, vec![String::new()]);
}

#[test]
fn typing_then_backspace_undoes() {
    let mut ed = editor();
    ed.insert_snippet("golpe()");
    ed.cursor_col = 3;
    let before = (ed.lines.clone(), ed.cursor_row, ed.cursor_col);
    ed.insert_char('x');
    ed.backspace();
    assert_eq!((ed.lines.clone(), ed.cursor_row, ed.cursor_col), before);
}

#[test]
fn snippet_with_line_breaks_indents_after_a_colon() {
    let mut ed = editor();
    ed.insert_snippet("if inimigo.vida > 0:\natacar(espada.Ferro)");
    assert_eq!(ed.lines, vec!["if inimigo.vida > 0:".to_string(), "    atacar(espada.Ferro)".to_string()]);
    assert_eq!(ed.text(), "if inimigo.vida > 0:\n    atacar(espada.Ferro)");
}

#[test]
fn arrows_keep_the_column_inside_the_line() {
    let mut ed = editor();
    ed.load_text("abcdef\nab\nabcd");
    ed.move_up();
    assert_eq!((ed.cursor_row, ed.cursor_col), (1, 2));
    ed.move_up();
    assert_eq!((ed.cursor_row, ed.cursor_col), (0, 2));
    ed.move_left();
    ed.move_left();
    ed.move_left();
    assert_eq!((ed.cursor_row, ed.cursor_col), (0, 0));
    ed.cursor_col = 6;
    ed.move_right();
    assert_eq!((ed.cursor_row, ed.cursor_col), (1, 0));
    ed.move_down();
    ed.move_down();
    assert_eq!((ed.cursor_row, ed.cursor_col), (2, 0));
}

#[test]
fn control_characters_are_ignored_and_tab_indents() {
    let mut ed = editor();
    ed.type_char('\u{8}');
    ed.type_char('a');
    ed.insert_indent();
    assert_eq!(ed.lines[0], "a    ");
    ed.clear();
    assert_eq!(ed.text(), "");
    assert_eq!(ed.highlighted_line, None);
}

#[test]
fn enter_keeps_indentation_and_trailing_spaces_do_not_hide_the_colon() {
    let mut ed = editor();
    ed.load_text("    while x:   ");
    ed.insert_newline();
    assert_eq!(ed.lines[1], "        ");
    ed.load_text("    y()");
    ed.insert_newline();
    assert_eq!(ed.lines[1], "    ");
}
