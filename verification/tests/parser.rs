use piiramid::script::ast::{BinOp, Expr, Stmt, StmtKind};
use piiramid::script::parser::parse;

/// Sets every line to 0: the two block styles must agree on the shape of the
/// tree, whatever physical line each statement fell on.
fn zero_lines(stmts: &mut [Stmt]) {
    for s in stmts.iter_mut() {
        s.line = 0;
        match &mut s.kind {
            StmtKind::If { then_branch, else_branch, .. } => {
                zero_lines(then_branch);
                if let Some(e) = else_branch {
                    zero_lines(e);
                }
            }
            StmtKind::While { body, .. } => zero_lines(body),
            StmtKind::For { body, .. } => zero_lines(body),
            StmtKind::FuncDef { body, .. } => zero_lines(body),
            StmtKind::Invoke { body, .. } => zero_lines(body),
            StmtKind::Expr(_) | StmtKind::Assign(_, _) => {}
        }
    }
}

#[test]
fn indent_and_brace_produce_same_ast() {
    let indent_src = "if inimigo.postura == \"guarda\":\n    defender(escudo[\"ouro\"])\nelse:\n    atacar(magia[\"fogo\"])\n";
    let brace_src = "if inimigo.postura == \"guarda\" {\n    defender(escudo[\"ouro\"])\n} else {\n    atacar(magia[\"fogo\"])\n}\n";
    let mut a = parse(indent_src).unwrap();
    let mut b = parse(brace_src).unwrap();
    zero_lines(&mut a);
    zero_lines(&mut b);
    assert_eq!(a, b);
}

#[test]
fn brace_block_nested_inside_indented_block_parses() {
    let src = "if inimigo.postura == \"guarda\":\n    while inimigo.vida > 0 {\n        atacar(espada[\"fogo\"])\n    }\n";
    let stmts = parse(src).unwrap();
    assert_eq!(stmts.len(), 1);
    match &stmts[0].kind {
        StmtKind::If { then_branch, .. } => {
            assert_eq!(then_branch.len(), 1);
            assert!(matches!(then_branch[0].kind, StmtKind::While { .. }));
        }
        other => panic!("unexpected stmt: {other:?}"),
    }
}

#[test]
fn for_range_and_precedence() {
    let stmts = parse("for i in 0..3 {\n    x = 1 + 2 * 3\n}\n").unwrap();
    match &stmts[0].kind {
        StmtKind::For { var, body, .. } => {
            assert_eq!(var, "i");
            match &body[0].kind {
                StmtKind::Assign(name, Expr::Binary(_, BinOp::Add, rhs)) => {
                    assert_eq!(name, "x");
                    assert!(matches!(**rhs, Expr::Binary(_, BinOp::Mul, _)));
                }
                other => panic!("unexpected stmt: {other:?}"),
            }
        }
        other => panic!("unexpected stmt: {other:?}"),
    }
}

#[test]
fn syntax_error_reports_line() {
    let err = parse("atacar(\n").unwrap_err();
    assert!(err.line >= 1);
}

#[test]
fn unclosed_paren_followed_by_enter_reports_the_opening_line_not_the_blank_line_after() {
    let err = parse("esperar()\natacar(\n").unwrap_err();
    assert_eq!(err.line, 2, "esperava a linha do '(' aberto, nao a linha em branco apos o Enter");
}

#[test]
fn unclosed_paren_at_true_eof_still_reports_the_opening_line() {
    let err = parse("esperar()\natacar(").unwrap_err();
    assert_eq!(err.line, 2);
}

#[test]
fn unclosed_paren_inside_indented_block_reports_the_opening_line() {
    let err = parse("esperar()\nif inimigo.postura == \"guarda\":\n    atacar(\n").unwrap_err();
    assert_eq!(err.line, 3);
}

#[test]
fn unclosed_bracket_index_reports_the_opening_line() {
    let err = parse("esperar()\natacar(espada[\"bronze\"\n").unwrap_err();
    assert_eq!(err.line, 2);
}

#[test]
fn unclosed_brace_block_reports_the_opening_line() {
    let err = parse("if inimigo.postura == \"guarda\" {\n    atacar(espada.Bronze)\n").unwrap_err();
    assert_eq!(err.line, 1);
}

#[test]
fn missing_comma_between_args_still_reports_the_offending_token_line_not_the_open_line() {
    let err = parse("atacar(\n    espada.Bronze\n    1\n)\n").unwrap_err();
    assert_eq!(err.line, 3);
}

#[test]
fn func_indent_and_brace_produce_same_ast() {
    let indent_src = "func combo():\n    atacar(espada[\"ferro\"])\n\ncombo()\n";
    let brace_src = "func combo() {\n    atacar(espada[\"ferro\"])\n}\n\ncombo()\n";
    let mut a = parse(indent_src).unwrap();
    let mut b = parse(brace_src).unwrap();
    zero_lines(&mut a);
    zero_lines(&mut b);
    assert_eq!(a, b);
}

#[test]
fn func_def_produces_funcdef_stmt() {
    let stmts = parse("func combo():\n    atacar(espada[\"ferro\"])\n").unwrap();
    match &stmts[0].kind {
        StmtKind::FuncDef { name, body } => {
            assert_eq!(name, "combo");
            assert_eq!(body.len(), 1);
        }
        other => panic!("unexpected stmt: {other:?}"),
    }
}

#[test]
fn func_with_parameter_is_rejected_with_explicit_message() {
    let err = parse("func combo(x):\n    esperar()\n").unwrap_err();
    assert!(err.message.contains("parametro"));
}

#[test]
fn unclosed_func_paren_reports_the_opening_line_not_eof_and_not_parameter_message() {
    let err = parse("esperar()\nfunc combo(\n").unwrap_err();
    assert_eq!(err.line, 2, "esperava a linha do '(' aberto de 'func combo(', nao a linha do EOF");
    assert!(
        !err.message.contains("parametro"),
        "nao ha parametro nenhum aqui - o parenteses so nao fechou; mensagem errada: {}",
        err.message
    );
}

#[test]
fn func_without_parens_is_syntax_error() {
    let err = parse("func combo:\n    esperar()\n").unwrap_err();
    assert!(err.line >= 1);
}

#[test]
fn func_nested_inside_if_is_rejected() {
    let err = parse("if true:\n    func combo():\n        esperar()\n").unwrap_err();
    assert!(err.message.contains("nivel superior"));
}

#[test]
fn func_nested_inside_func_is_rejected() {
    let err = parse("func externa():\n    func interna():\n        esperar()\n").unwrap_err();
    assert!(err.message.contains("nivel superior"));
}

#[test]
fn select_produces_select_expr_with_predicate_and_limit() {
    let stmts = parse("item = selecionar(mochila, onde: item.bonus > 0, limite: 1)\n").unwrap();
    match &stmts[0].kind {
        StmtKind::Assign(name, Expr::Select { predicate, limit }) => {
            assert_eq!(name, "item");
            assert!(matches!(**predicate, Expr::Binary(_, BinOp::Gt, _)));
            // number literals keep the text they were written with
            assert!(matches!(&**limit, Expr::Number(n) if n == "1"));
        }
        other => panic!("unexpected stmt: {other:?}"),
    }
}

#[test]
fn select_source_other_than_mochila_is_a_clear_syntax_error() {
    let err = parse("selecionar(armario, onde: true, limite: 1)\n").unwrap_err();
    assert!(err.message.contains("mochila"));
}

#[test]
fn select_missing_onde_label_is_a_clear_syntax_error() {
    let err = parse("selecionar(mochila, item.bonus > 0, limite: 1)\n").unwrap_err();
    assert!(err.message.contains("onde"));
}

#[test]
fn select_missing_limite_label_is_a_clear_syntax_error() {
    let err = parse("selecionar(mochila, onde: true, quantidade: 1)\n").unwrap_err();
    assert!(err.message.contains("limite"));
}

#[test]
fn invoke_block_keeps_its_name_and_body() {
    let stmts = parse("invocar a:\n    esperar()\n    esperar()\n").unwrap();
    match &stmts[0].kind {
        StmtKind::Invoke { name, body } => {
            assert_eq!(name, "a");
            assert_eq!(body.len(), 2);
            assert_eq!(body[1].line, 3);
        }
        other => panic!("unexpected stmt: {other:?}"),
    }
}

#[test]
fn unexpected_token_message_names_what_was_expected_and_found() {
    let err = parse("atacar(1 2)\n").unwrap_err();
    assert_eq!(err.line, 1);
    assert!(err.message.starts_with("esperava "), "{}", err.message);
    assert!(err.message.contains("encontrei"), "{}", err.message);
}
