//! Recursive-descent parser. The interesting part is `block`: it chooses
//! between a block by indentation (`:`) and a block by braces (`{}`) by
//! looking at one token, and both give the same tree.
//!
//! The parser is specified by spec functions over the token views, one per
//! parsing function (`sp_*`), and each executable function is proved to
//! compute what its spec function describes, errors and their lines
//! included.

use vstd::prelude::*;
use super::ast::{exprs_view, expr_view, kind_view, stmt_view, stmts_view, BinOp, Expr, SExpr, SStmt, SStmtKind, Stmt, StmtKind, UnaryOp};
use super::error::ScriptError;
use super::lexer::{lemma_lex_structure, lex, tokenize, toks_view, Tag, TokKind, TokV, Token};
use crate::text::{chars_eq_str, chars_of, push_chars, push_str};

verus! {

pub type PErr = (int, Seq<char>);

/// What the player reads for a token kind that carries no text.
pub open spec fn tag_desc(t: Tag) -> Seq<char> {
    match t {
        Tag::Newline => "fim de linha"@,
        Tag::Indent => "um aumento de indentacao"@,
        Tag::Dedent => "uma volta de indentacao"@,
        Tag::Eof => "fim do script"@,
        Tag::True => "'true'"@,
        Tag::False => "'false'"@,
        Tag::If => "'if'"@,
        Tag::Else => "'else'"@,
        Tag::While => "'while'"@,
        Tag::For => "'for'"@,
        Tag::In => "'in'"@,
        Tag::Func => "'func'"@,
        Tag::Invocar => "'invocar'"@,
        Tag::Selecionar => "'selecionar'"@,
        Tag::Plus => "'+'"@,
        Tag::Minus => "'-'"@,
        Tag::Star => "'*'"@,
        Tag::Slash => "'/'"@,
        Tag::Percent => "'%'"@,
        Tag::Assign => "'='"@,
        Tag::EqEq => "'=='"@,
        Tag::NotEq => "'!='"@,
        Tag::Lt => "'<'"@,
        Tag::Gt => "'>'"@,
        Tag::Le => "'<='"@,
        Tag::Ge => "'>='"@,
        Tag::And => "'and'"@,
        Tag::Or => "'or'"@,
        Tag::Not => "'not'"@,
        Tag::LParen => "'('"@,
        Tag::RParen => "')'"@,
        Tag::LBracket => "'['"@,
        Tag::RBracket => "']'"@,
        Tag::LBrace => "'{'"@,
        Tag::RBrace => "'}'"@,
        Tag::Colon => "':'"@,
        Tag::Comma => "','"@,
        Tag::Dot => "'.'"@,
        Tag::DotDot => "'..'"@,
        Tag::Semicolon => "';'"@,
        _ => Seq::empty(),
    }
}

/// The name of a token kind, as the Rust `Debug` of the token prints it.
pub open spec fn tag_name(t: Tag) -> Seq<char> {
    match t {
        Tag::Newline => "Newline"@,
        Tag::Indent => "Indent"@,
        Tag::Dedent => "Dedent"@,
        Tag::Eof => "Eof"@,
        Tag::Ident => "Ident"@,
        Tag::Number => "Number"@,
        Tag::Str => "Str"@,
        Tag::True => "True"@,
        Tag::False => "False"@,
        Tag::If => "If"@,
        Tag::Else => "Else"@,
        Tag::While => "While"@,
        Tag::For => "For"@,
        Tag::In => "In"@,
        Tag::Func => "Func"@,
        Tag::Invocar => "Invocar"@,
        Tag::Selecionar => "Selecionar"@,
        Tag::Plus => "Plus"@,
        Tag::Minus => "Minus"@,
        Tag::Star => "Star"@,
        Tag::Slash => "Slash"@,
        Tag::Percent => "Percent"@,
        Tag::Assign => "Assign"@,
        Tag::EqEq => "EqEq"@,
        Tag::NotEq => "NotEq"@,
        Tag::Lt => "Lt"@,
        Tag::Gt => "Gt"@,
        Tag::Le => "Le"@,
        Tag::Ge => "Ge"@,
        Tag::And => "And"@,
        Tag::Or => "Or"@,
        Tag::Not => "Not"@,
        Tag::LParen => "LParen"@,
        Tag::RParen => "RParen"@,
        Tag::LBracket => "LBracket"@,
        Tag::RBracket => "RBracket"@,
        Tag::LBrace => "LBrace"@,
        Tag::RBrace => "RBrace"@,
        Tag::Colon => "Colon"@,
        Tag::Comma => "Comma"@,
        Tag::Dot => "Dot"@,
        Tag::DotDot => "DotDot"@,
        Tag::Semicolon => "Semicolon"@,
    }
}

fn tag_desc_exec(t: Tag) -> (r: &'static str)
    requires
        t != Tag::Ident,
        t != Tag::Number,
        t != Tag::Str,
    ensures
        r@ == tag_desc(t),
{
    match t {
        Tag::Newline => "fim de linha",
        Tag::Indent => "um aumento de indentacao",
        Tag::Dedent => "uma volta de indentacao",
        Tag::Eof => "fim do script",
        Tag::True => "'true'",
        Tag::False => "'false'",
        Tag::If => "'if'",
        Tag::Else => "'else'",
        Tag::While => "'while'",
        Tag::For => "'for'",
        Tag::In => "'in'",
        Tag::Func => "'func'",
        Tag::Invocar => "'invocar'",
        Tag::Selecionar => "'selecionar'",
        Tag::Plus => "'+'",
        Tag::Minus => "'-'",
        Tag::Star => "'*'",
        Tag::Slash => "'/'",
        Tag::Percent => "'%'",
        Tag::Assign => "'='",
        Tag::EqEq => "'=='",
        Tag::NotEq => "'!='",
        Tag::Lt => "'<'",
        Tag::Gt => "'>'",
        Tag::Le => "'<='",
        Tag::Ge => "'>='",
        Tag::And => "'and'",
        Tag::Or => "'or'",
        Tag::Not => "'not'",
        Tag::LParen => "'('",
        Tag::RParen => "')'",
        Tag::LBracket => "'['",
        Tag::RBracket => "']'",
        Tag::LBrace => "'{'",
        Tag::RBrace => "'}'",
        Tag::Colon => "':'",
        Tag::Comma => "','",
        Tag::Dot => "'.'",
        Tag::DotDot => "'..'",
        Tag::Semicolon => "';'",
        _ => "",
    }
}

fn tag_name_exec(t: Tag) -> (r: &'static str)
    ensures
        r@ == tag_name(t),
{
    match t {
        Tag::Newline => "Newline",
        Tag::Indent => "Indent",
        Tag::Dedent => "Dedent",
        Tag::Eof => "Eof",
        Tag::Ident => "Ident",
        Tag::Number => "Number",
        Tag::Str => "Str",
        Tag::True => "True",
        Tag::False => "False",
        Tag::If => "If",
        Tag::Else => "Else",
        Tag::While => "While",
        Tag::For => "For",
        Tag::In => "In",
        Tag::Func => "Func",
        Tag::Invocar => "Invocar",
        Tag::Selecionar => "Selecionar",
        Tag::Plus => "Plus",
        Tag::Minus => "Minus",
        Tag::Star => "Star",
        Tag::Slash => "Slash",
        Tag::Percent => "Percent",
        Tag::Assign => "Assign",
        Tag::EqEq => "EqEq",
        Tag::NotEq => "NotEq",
        Tag::Lt => "Lt",
        Tag::Gt => "Gt",
        Tag::Le => "Le",
        Tag::Ge => "Ge",
        Tag::And => "And",
        Tag::Or => "Or",
        Tag::Not => "Not",
        Tag::LParen => "LParen",
        Tag::RParen => "RParen",
        Tag::LBracket => "LBracket",
        Tag::RBracket => "RBracket",
        Tag::LBrace => "LBrace",
        Tag::RBrace => "RBrace",
        Tag::Colon => "Colon",
        Tag::Comma => "Comma",
        Tag::Dot => "Dot",
        Tag::DotDot => "DotDot",
        Tag::Semicolon => "Semicolon",
    }
}

pub open spec fn strip_leading_zeros(s: Seq<char>) -> Seq<char>
    decreases s.len(),
{
    if s.len() > 0 && s[0] == '0' {
        strip_leading_zeros(s.drop_first())
    } else {
        s
    }
}

pub open spec fn strip_trailing_zeros(s: Seq<char>) -> Seq<char>
    decreases s.len(),
{
    if s.len() > 0 && s.last() == '0' {
        strip_trailing_zeros(s.drop_last())
    } else {
        s
    }
}

/// Position of the first '.' in `s`, or its length.
pub open spec fn dot_index(s: Seq<char>) -> int
    decreases s.len(),
{
    if s.len() == 0 {
        0
    } else if s[0] == '.' {
        0
    } else {
        1 + dot_index(s.drop_first())
    }
}

/// How a number literal reads back: no leading zeros in the integer part
/// (but at least one digit), no trailing zeros in the fraction, and no '.'
/// when the fraction is empty.
pub open spec fn num_display(t: Seq<char>) -> Seq<char> {
    let k = dot_index(t);
    let ip = strip_leading_zeros(t.subrange(0, k));
    let ip2 = if ip.len() == 0 { seq!['0'] } else { ip };
    let fp = if k < t.len() { strip_trailing_zeros(t.subrange(k + 1, t.len() as int)) } else { Seq::empty() };
    if fp.len() == 0 { ip2 } else { ip2 + seq!['.'] + fp }
}

/// What the player reads for a token.
pub open spec fn describe(v: TokV) -> Seq<char> {
    match v.tag {
        Tag::Ident => "'"@ + v.text + "'"@,
        Tag::Number => "o numero '"@ + num_display(v.text) + "'"@,
        Tag::Str => "o texto '"@ + v.text + "'"@,
        _ => tag_desc(v.tag),
    }
}

pub open spec fn expect_msg(want: Tag, ctx: Seq<char>, found: TokV) -> Seq<char> {
    "esperava "@ + tag_desc(want) + " em "@ + ctx + ", encontrei "@ + describe(found)
}

pub open spec fn tag_at(ts: Seq<TokV>, p: int) -> Tag {
    ts[p].tag
}

pub open spec fn line_at(ts: Seq<TokV>, p: int) -> int {
    ts[p].line
}

pub open spec fn oob<T>() -> Result<T, PErr> {
    Err((-1, Seq::empty()))
}

/// The position after the expected token, or the error naming it.
pub open spec fn sp_expect(ts: Seq<TokV>, p: int, want: Tag, ctx: Seq<char>) -> Result<int, PErr> {
    if tag_at(ts, p) == want {
        Ok(p + 1)
    } else {
        Err((line_at(ts, p), expect_msg(want, ctx, ts[p])))
    }
}

/// Like `sp_expect` for the closer of a delimiter opened at `open_line`:
/// when the text ended before it, the error points at the opening line.
pub open spec fn sp_expect_closing(
    ts: Seq<TokV>,
    p: int,
    want: Tag,
    open_line: int,
    ctx: Seq<char>,
) -> Result<int, PErr> {
    if tag_at(ts, p) == want {
        Ok(p + 1)
    } else if tag_at(ts, p) == Tag::Eof {
        Err((open_line, expect_msg(want, ctx, ts[p])))
    } else {
        Err((line_at(ts, p), expect_msg(want, ctx, ts[p])))
    }
}

pub open spec fn sp_expect_ident(ts: Seq<TokV>, p: int) -> Result<(Seq<char>, int), PErr> {
    if tag_at(ts, p) == Tag::Ident {
        Ok((ts[p].text, p + 1))
    } else {
        Err((line_at(ts, p), "esperava um identificador, encontrei "@ + describe(ts[p])))
    }
}

pub open spec fn sp_skip_bare_newlines(ts: Seq<TokV>, p: int) -> int
    decreases ts.len() - p,
{
    if 0 <= p < ts.len() && tag_at(ts, p) == Tag::Newline {
        sp_skip_bare_newlines(ts, p + 1)
    } else {
        p
    }
}

pub open spec fn sp_skip_seps(ts: Seq<TokV>, p: int) -> int
    decreases ts.len() - p,
{
    if 0 <= p < ts.len() && (tag_at(ts, p) == Tag::Newline || tag_at(ts, p) == Tag::Semicolon) {
        sp_skip_seps(ts, p + 1)
    } else {
        p
    }
}

pub open spec fn inb(ts: Seq<TokV>, p: int) -> bool {
    0 <= p < ts.len()
}

pub open spec fn fwd(ts: Seq<TokV>, p: int, q: int) -> bool {
    p < q < ts.len()
}

pub open spec fn bin(l: SExpr, op: BinOp, r: SExpr) -> SExpr {
    SExpr::Binary(Box::new(l), op, Box::new(r))
}

pub open spec fn cmp_op(t: Tag) -> Option<BinOp> {
    match t {
        Tag::EqEq => Some(BinOp::Eq),
        Tag::NotEq => Some(BinOp::NotEq),
        Tag::Lt => Some(BinOp::Lt),
        Tag::Gt => Some(BinOp::Gt),
        Tag::Le => Some(BinOp::Le),
        Tag::Ge => Some(BinOp::Ge),
        _ => None,
    }
}

pub open spec fn add_op(t: Tag) -> Option<BinOp> {
    match t {
        Tag::Plus => Some(BinOp::Add),
        Tag::Minus => Some(BinOp::Sub),
        _ => None,
    }
}

pub open spec fn mul_op(t: Tag) -> Option<BinOp> {
    match t {
        Tag::Star => Some(BinOp::Mul),
        Tag::Slash => Some(BinOp::Div),
        Tag::Percent => Some(BinOp::Mod),
        _ => None,
    }
}

/// Which binary operators a precedence level takes: 0 `or`, 1 `and`, 2
/// comparisons, 3 `+ -`, 4 `* / %`.
pub open spec fn level_op(level: int, t: Tag) -> Option<BinOp> {
    if level == 0 {
        if t == Tag::Or { Some(BinOp::Or) } else { None }
    } else if level == 1 {
        if t == Tag::And { Some(BinOp::And) } else { None }
    } else if level == 2 {
        cmp_op(t)
    } else if level == 3 {
        add_op(t)
    } else {
        mul_op(t)
    }
}

/// How a binary operator is written in a script (`and` and `or` also have
/// the words `e` and `ou`).
pub open spec fn op_symbol(op: BinOp) -> Seq<char> {
    match op {
        BinOp::Add => seq!['+'],
        BinOp::Sub => seq!['-'],
        BinOp::Mul => seq!['*'],
        BinOp::Div => seq!['/'],
        BinOp::Mod => seq!['%'],
        BinOp::Eq => seq!['=', '='],
        BinOp::NotEq => seq!['!', '='],
        BinOp::Lt => seq!['<'],
        BinOp::Gt => seq!['>'],
        BinOp::Le => seq!['<', '='],
        BinOp::Ge => seq!['>', '='],
        BinOp::And => seq!['a', 'n', 'd'],
        BinOp::Or => seq!['o', 'r'],
    }
}

/// How a token that stands for a binary operator is written: its symbol,
/// or the word for `and` and `or`.
pub open spec fn tag_spelling(t: Tag) -> Seq<char> {
    match t {
        Tag::And => seq!['a', 'n', 'd'],
        Tag::Or => seq!['o', 'r'],
        _ => super::lexer::tag_symbol(t),
    }
}

/// A binary node's operator is the one written between its operands: at
/// every precedence level, the operator taken for a token is spelled as the
/// token (so `-` is subtraction and `<=` is "at most"); and the levels go
/// from the loosest, `or`, to the tightest, `* / %`.
pub proof fn lemma_operator_is_the_written_one(level: int, t: Tag)
    ensures
        level_op(level, t) is Some ==> op_symbol(level_op(level, t)->Some_0) == tag_spelling(t),
        level_op(level, t) == Some(BinOp::Or) ==> level == 0,
        level_op(level, t) == Some(BinOp::And) ==> level == 1,
        (level_op(level, t) == Some(BinOp::Add) || level_op(level, t) == Some(BinOp::Sub)) ==> level == 3,
        (level_op(level, t) == Some(BinOp::Mul) || level_op(level, t) == Some(BinOp::Div) || level_op(level, t)
            == Some(BinOp::Mod)) ==> level >= 4 || level < 0,
{
}

/// An expression: `or` is the loosest level.
pub open spec fn sp_expr(ts: Seq<TokV>, p: int) -> Result<(SExpr, int), PErr>
    decreases ts.len() - p, 40int,
{
    sp_level(ts, p, 0)
}

/// A left-associative chain of operators of `level`, each operand a chain
/// of the next level (level 5 is the unary level).
pub open spec fn sp_level(ts: Seq<TokV>, p: int, level: int) -> Result<(SExpr, int), PErr>
    decreases ts.len() - p, 30 - 2 * level,
{
    if !inb(ts, p) || level < 0 || level > 4 {
        oob()
    } else {
        match sp_operand(ts, p, level + 1) {
            Err(e) => Err(e),
            Ok((l, p1)) => {
                if fwd(ts, p, p1) {
                    sp_level_rest(ts, p1, level, l)
                } else {
                    oob()
                }
            },
        }
    }
}

/// The operand of a level: the next level, or the unary level after `*`.
pub open spec fn sp_operand(ts: Seq<TokV>, p: int, level: int) -> Result<(SExpr, int), PErr>
    decreases ts.len() - p, 31 - 2 * level,
{
    if 1 <= level <= 4 {
        sp_level(ts, p, level)
    } else if level == 5 {
        sp_unary(ts, p)
    } else {
        oob()
    }
}

pub open spec fn sp_level_rest(ts: Seq<TokV>, p: int, level: int, left: SExpr) -> Result<(SExpr, int), PErr>
    decreases ts.len() - p, 30 - 2 * level,
{
    if !inb(ts, p) || level < 0 || level > 4 {
        oob()
    } else {
        match level_op(level, tag_at(ts, p)) {
            None => Ok((left, p)),
            Some(op) => match sp_operand(ts, p + 1, level + 1) {
                Err(e) => Err(e),
                Ok((r, p2)) => {
                    if fwd(ts, p, p2) {
                        sp_level_rest(ts, p2, level, bin(left, op, r))
                    } else {
                        oob()
                    }
                },
            },
        }
    }
}

pub open spec fn sp_unary(ts: Seq<TokV>, p: int) -> Result<(SExpr, int), PErr>
    decreases ts.len() - p, 9int,
{
    if !inb(ts, p) {
        oob()
    } else if tag_at(ts, p) == Tag::Minus || tag_at(ts, p) == Tag::Not {
        match sp_unary(ts, p + 1) {
            Err(e) => Err(e),
            Ok((e, p2)) => Ok((
                SExpr::Unary(if tag_at(ts, p) == Tag::Minus { UnaryOp::Neg } else { UnaryOp::Not }, Box::new(e)),
                p2,
            )),
        }
    } else {
        sp_postfix(ts, p)
    }
}

pub open spec fn sp_postfix(ts: Seq<TokV>, p: int) -> Result<(SExpr, int), PErr>
    decreases ts.len() - p, 8int,
{
    if !inb(ts, p) {
        oob()
    } else {
        match sp_primary(ts, p) {
            Err(e) => Err(e),
            Ok((e, p1)) => {
                if fwd(ts, p, p1) {
                    sp_postfix_rest(ts, p1, e)
                } else {
                    oob()
                }
            },
        }
    }
}

pub open spec fn sp_postfix_rest(ts: Seq<TokV>, p: int, e: SExpr) -> Result<(SExpr, int), PErr>
    decreases ts.len() - p, 8int,
{
    if !inb(ts, p) {
        oob()
    } else if tag_at(ts, p) == Tag::LParen {
        match e {
            SExpr::Ident(name) => {
                let open_line = line_at(ts, p);
                match sp_args(ts, p + 1) {
                    Err(er) => Err(er),
                    Ok((args, p2)) => {
                        if p < p2 < ts.len() {
                            match sp_expect_closing(ts, p2, Tag::RParen, open_line, "fechando chamada de funcao"@) {
                                Err(er) => Err(er),
                                Ok(p3) => {
                                    if fwd(ts, p, p3) {
                                        sp_postfix_rest(ts, p3, SExpr::Call(name, args))
                                    } else {
                                        oob()
                                    }
                                },
                            }
                        } else {
                            oob()
                        }
                    },
                }
            },
            _ => Ok((e, p)),
        }
    } else if tag_at(ts, p) == Tag::LBracket {
        let open_line = line_at(ts, p);
        match sp_expr(ts, p + 1) {
            Err(er) => Err(er),
            Ok((idx, p2)) => {
                if p < p2 < ts.len() {
                    match sp_expect_closing(ts, p2, Tag::RBracket, open_line, "fechando indice"@) {
                        Err(er) => Err(er),
                        Ok(p3) => {
                            if fwd(ts, p, p3) {
                                sp_postfix_rest(ts, p3, SExpr::Index(Box::new(e), Box::new(idx)))
                            } else {
                                oob()
                            }
                        },
                    }
                } else {
                    oob()
                }
            },
        }
    } else if tag_at(ts, p) == Tag::Dot {
        if p + 1 < ts.len() {
            match sp_expect_ident(ts, p + 1) {
                Err(er) => Err(er),
                Ok((f, p2)) => {
                    if fwd(ts, p, p2) {
                        sp_postfix_rest(ts, p2, SExpr::Field(Box::new(e), f))
                    } else {
                        oob()
                    }
                },
            }
        } else {
            oob()
        }
    } else {
        Ok((e, p))
    }
}

/// The arguments of a call, up to (not including) its `)`.
pub open spec fn sp_args(ts: Seq<TokV>, p: int) -> Result<(Seq<SExpr>, int), PErr>
    decreases ts.len() - p, 50int,
{
    if !inb(ts, p) {
        oob()
    } else if tag_at(ts, p) == Tag::RParen || tag_at(ts, p) == Tag::Eof {
        Ok((Seq::empty(), p))
    } else {
        match sp_expr(ts, p) {
            Err(e) => Err(e),
            Ok((a, p1)) => {
                if fwd(ts, p, p1) {
                    sp_args_rest(ts, p1, seq![a])
                } else {
                    oob()
                }
            },
        }
    }
}

pub open spec fn sp_args_rest(ts: Seq<TokV>, p: int, acc: Seq<SExpr>) -> Result<(Seq<SExpr>, int), PErr>
    decreases ts.len() - p, 50int,
{
    if !inb(ts, p) {
        oob()
    } else if tag_at(ts, p) == Tag::Comma {
        match sp_expr(ts, p + 1) {
            Err(e) => Err(e),
            Ok((a, p2)) => {
                if fwd(ts, p, p2) {
                    sp_args_rest(ts, p2, acc.push(a))
                } else {
                    oob()
                }
            },
        }
    } else {
        Ok((acc, p))
    }
}

pub open spec fn select_msg(word: Seq<char>, found: Seq<char>) -> Seq<char> {
    if word == "mochila"@ {
        "'selecionar' so aceita 'mochila' como fonte hoje, encontrei '"@ + found + "'"@
    } else {
        "esperava '"@ + word + ":' em 'selecionar(mochila, onde: ..., limite: ...)', encontrei '"@ + found + "'"@
    }
}

/// `selecionar ( mochila , onde : <expr> , limite : <expr> )`, with each
/// position required literally.
pub open spec fn sp_select(ts: Seq<TokV>, p: int) -> Result<(SExpr, int), PErr>
    decreases ts.len() - p, 6int,
{
    if !inb(ts, p) || !inb(ts, p + 1) {
        oob()
    } else {
        let open_line = line_at(ts, p + 1);
        match sp_expect(ts, p + 1, Tag::LParen, "apos 'selecionar'"@) {
            Err(e) => Err(e),
            Ok(p2) => if !inb(ts, p2) { oob() } else { match sp_expect_ident(ts, p2) {
                Err(e) => Err(e),
                Ok((src, p3)) => if !inb(ts, p3) { oob() } else if src != "mochila"@ {
                    Err((line_at(ts, p3), select_msg("mochila"@, src)))
                } else { match sp_expect(ts, p3, Tag::Comma, "apos 'mochila' em 'selecionar(mochila, onde: ..., limite: ...)'"@) {
                    Err(e) => Err(e),
                    Ok(p4) => if !inb(ts, p4) { oob() } else { match sp_expect_ident(ts, p4) {
                        Err(e) => Err(e),
                        Ok((onde, p5)) => if !inb(ts, p5) { oob() } else if onde != "onde"@ {
                            Err((line_at(ts, p5), select_msg("onde"@, onde)))
                        } else { match sp_expect(ts, p5, Tag::Colon, "apos 'onde' em 'selecionar(...)'"@) {
                            Err(e) => Err(e),
                            Ok(p6) => match sp_expr(ts, p6) {
                                Err(e) => Err(e),
                                Ok((pred, p7)) => if !(p6 < p7 < ts.len()) { oob() } else {
                                    match sp_expect(ts, p7, Tag::Comma, "apos a condicao de 'onde:' em 'selecionar(...)'"@) {
                                    Err(e) => Err(e),
                                    Ok(p8) => if !inb(ts, p8) { oob() } else { match sp_expect_ident(ts, p8) {
                                        Err(e) => Err(e),
                                        Ok((lim, p9)) => if !inb(ts, p9) { oob() } else if lim != "limite"@ {
                                            Err((line_at(ts, p9), select_msg("limite"@, lim)))
                                        } else { match sp_expect(ts, p9, Tag::Colon, "apos 'limite' em 'selecionar(...)'"@) {
                                            Err(e) => Err(e),
                                            Ok(p10) => match sp_expr(ts, p10) {
                                                Err(e) => Err(e),
                                                Ok((limit, p11)) => if !(p10 < p11 < ts.len()) { oob() } else {
                                                    match sp_expect_closing(ts, p11, Tag::RParen, open_line, "fechando 'selecionar(...)'"@) {
                                                        Err(e) => Err(e),
                                                        Ok(p12) => Ok((SExpr::Select(Box::new(pred), Box::new(limit)), p12)),
                                                    }
                                                },
                                            },
                                        } },
                                    } },
                                } },
                            },
                        } },
                    } },
                } },
            } },
        }
    }
}

pub open spec fn sp_primary(ts: Seq<TokV>, p: int) -> Result<(SExpr, int), PErr>
    decreases ts.len() - p, 7int,
{
    if !inb(ts, p) {
        oob()
    } else {
        let t = tag_at(ts, p);
        if t == Tag::Number {
            Ok((SExpr::Number(ts[p].text), p + 1))
        } else if t == Tag::Str {
            Ok((SExpr::Str(ts[p].text), p + 1))
        } else if t == Tag::True {
            Ok((SExpr::Bool(true), p + 1))
        } else if t == Tag::False {
            Ok((SExpr::Bool(false), p + 1))
        } else if t == Tag::Ident {
            Ok((SExpr::Ident(ts[p].text), p + 1))
        } else if t == Tag::LParen {
            let open_line = line_at(ts, p);
            match sp_expr(ts, p + 1) {
                Err(e) => Err(e),
                Ok((e, p2)) => if p < p2 < ts.len() {
                    match sp_expect_closing(ts, p2, Tag::RParen, open_line, "fechando expressao entre parenteses"@) {
                        Err(er) => Err(er),
                        Ok(p3) => Ok((e, p3)),
                    }
                } else {
                    oob()
                },
            }
        } else if t == Tag::Selecionar {
            sp_select(ts, p)
        } else {
            Err((line_at(ts, p), "token inesperado: "@ + tag_name(t)))
        }
    }
}

/// A statement at `p`; `depth` counts the blocks around it (a `func` is
/// only accepted at depth 0).
pub open spec fn sp_stmt(ts: Seq<TokV>, p: int, depth: int) -> Result<(SStmt, int), PErr>
    decreases ts.len() - p, 3int,
{
    if !inb(ts, p) {
        oob()
    } else {
        let line = line_at(ts, p);
        match sp_stmt_kind(ts, p, depth) {
            Err(e) => Err(e),
            Ok((k, q)) => Ok((SStmt { line, kind: k }, q)),
        }
    }
}

pub open spec fn func_nested_msg() -> Seq<char> {
    "'func' so ecoa se gravada no nivel superior do script - tire-a de dentro do if/while/for/func"@
}

pub open spec fn func_param_msg() -> Seq<char> {
    "a Piramide nao aceita parametro em func: escreva 'func nome()' com os parenteses vazios"@
}

pub open spec fn sp_stmt_kind(ts: Seq<TokV>, p: int, depth: int) -> Result<(SStmtKind, int), PErr>
    decreases ts.len() - p, 2int,
{
    if !inb(ts, p) {
        oob()
    } else {
        let t = tag_at(ts, p);
        if t == Tag::If {
            match sp_expr(ts, p + 1) {
                Err(e) => Err(e),
                Ok((c, p1)) => if !fwd(ts, p, p1) { oob() } else { match sp_block(ts, p1, depth) {
                    Err(e) => Err(e),
                    Ok((th, p2)) => {
                        let p3 = sp_skip_bare_newlines(ts, p2);
                        if !(p1 < p2 <= p3 < ts.len()) {
                            oob()
                        } else if tag_at(ts, p3) == Tag::Else {
                            match sp_block(ts, p3 + 1, depth) {
                                Err(e) => Err(e),
                                Ok((el, p4)) => Ok((SStmtKind::If(c, th, Some(el)), p4)),
                            }
                        } else {
                            Ok((SStmtKind::If(c, th, None), p3))
                        }
                    },
                } },
            }
        } else if t == Tag::While {
            match sp_expr(ts, p + 1) {
                Err(e) => Err(e),
                Ok((c, p1)) => if !fwd(ts, p, p1) { oob() } else { match sp_block(ts, p1, depth) {
                    Err(e) => Err(e),
                    Ok((body, p2)) => Ok((SStmtKind::While(c, body), p2)),
                } },
            }
        } else if t == Tag::For {
            match sp_expect_ident(ts, p + 1) {
                Err(e) => Err(e),
                Ok((var, p1)) => match sp_expect(ts, p1, Tag::In, "em 'for x in a..b'"@) {
                    Err(e) => Err(e),
                    Ok(p2) => match sp_expr(ts, p2) {
                        Err(e) => Err(e),
                        Ok((from, p3)) => if !(p2 < p3 < ts.len()) { oob() } else {
                            match sp_expect(ts, p3, Tag::DotDot, "em 'for x in a..b'"@) {
                            Err(e) => Err(e),
                            Ok(p4) => match sp_expr(ts, p4) {
                                Err(e) => Err(e),
                                Ok((to, p5)) => if !(p4 < p5 < ts.len()) { oob() } else {
                                    match sp_block(ts, p5, depth) {
                                        Err(e) => Err(e),
                                        Ok((body, p6)) => Ok((SStmtKind::For(var, from, to, body), p6)),
                                    }
                                },
                            },
                        } },
                    },
                },
            }
        } else if t == Tag::Func {
            if depth > 0 {
                Err((line_at(ts, p), func_nested_msg()))
            } else {
                match sp_expect_ident(ts, p + 1) {
                    Err(e) => Err(e),
                    Ok((name, p1)) => {
                        let open_line = line_at(ts, p1);
                        match sp_expect(ts, p1, Tag::LParen, "apos o nome em 'func nome()'"@) {
                            Err(e) => Err(e),
                            Ok(p2) => {
                                if !inb(ts, p2) {
                                    oob()
                                } else if tag_at(ts, p2) == Tag::RParen {
                                    if !(p2 + 1 < ts.len()) { oob() } else {
                                    match sp_block(ts, p2 + 1, depth) {
                                        Err(e) => Err(e),
                                        Ok((body, p3)) => Ok((SStmtKind::FuncDef(name, body), p3)),
                                    } }
                                } else if tag_at(ts, p2) == Tag::Eof {
                                    Err((open_line, expect_msg(Tag::RParen, "fechando os parenteses de 'func nome()'"@, ts[p2])))
                                } else {
                                    Err((line_at(ts, p2), func_param_msg()))
                                }
                            },
                        }
                    },
                }
            }
        } else if t == Tag::Invocar {
            match sp_expect_ident(ts, p + 1) {
                Err(e) => Err(e),
                Ok((name, p1)) => if !fwd(ts, p, p1) { oob() } else { match sp_block(ts, p1, depth) {
                    Err(e) => Err(e),
                    Ok((body, p2)) => Ok((SStmtKind::Invoke(name, body), p2)),
                } },
            }
        } else if t == Tag::Ident && p + 1 < ts.len() && tag_at(ts, p + 1) == Tag::Assign {
            match sp_expr(ts, p + 2) {
                Err(e) => Err(e),
                Ok((v, p2)) => Ok((SStmtKind::Assign(ts[p].text, v), p2)),
            }
        } else {
            match sp_expr(ts, p) {
                Err(e) => Err(e),
                Ok((e, p1)) => Ok((SStmtKind::Expr(e), p1)),
            }
        }
    }
}

pub open spec fn block_open_msg(found: TokV) -> Seq<char> {
    "esperava ':' ou '{' para abrir um bloco, encontrei "@ + describe(found)
}

/// `: NEWLINE INDENT stmt+ DEDENT` or `{ stmt* }`; the statements inside are
/// one block deeper.
pub open spec fn sp_block(ts: Seq<TokV>, p: int, depth: int) -> Result<(Seq<SStmt>, int), PErr>
    decreases ts.len() - p, 6int,
{
    if !inb(ts, p) {
        oob()
    } else if tag_at(ts, p) == Tag::Colon {
        match sp_expect(ts, p + 1, Tag::Newline, "depois de ':'"@) {
            Err(e) => Err(e),
            Ok(p1) => match sp_expect(ts, p1, Tag::Indent, "inicio de bloco indentado"@) {
                Err(e) => Err(e),
                Ok(p2) => if !inb(ts, p2) { oob() } else { match sp_list(ts, p2, Tag::Dedent, depth + 1) {
                    Err(e) => Err(e),
                    Ok((b, p3)) => if !inb(ts, p3) { oob() } else {
                        match sp_expect(ts, p3, Tag::Dedent, "fim de bloco indentado"@) {
                            Err(e) => Err(e),
                            Ok(p4) => Ok((b, p4)),
                        }
                    },
                } },
            },
        }
    } else if tag_at(ts, p) == Tag::LBrace {
        let open_line = line_at(ts, p);
        match sp_list(ts, p + 1, Tag::RBrace, depth + 1) {
            Err(e) => Err(e),
            Ok((b, p2)) => if !inb(ts, p2) { oob() } else {
                match sp_expect_closing(ts, p2, Tag::RBrace, open_line, "fim de bloco '{}'"@) {
                    Err(e) => Err(e),
                    Ok(p3) => Ok((b, p3)),
                }
            },
        }
    } else {
        Err((line_at(ts, p), block_open_msg(ts[p])))
    }
}

/// Statements separated by newlines or `;`, up to `end` or the end of the
/// text.
pub open spec fn sp_list(ts: Seq<TokV>, p: int, end: Tag, depth: int) -> Result<(Seq<SStmt>, int), PErr>
    decreases ts.len() - p, 5int,
{
    let p0 = sp_skip_seps(ts, p);
    if !(0 <= p <= p0 < ts.len()) {
        oob()
    } else {
        sp_list_loop(ts, p0, end, depth, Seq::empty())
    }
}

pub open spec fn sp_list_loop(
    ts: Seq<TokV>,
    p: int,
    end: Tag,
    depth: int,
    acc: Seq<SStmt>,
) -> Result<(Seq<SStmt>, int), PErr>
    decreases ts.len() - p, 4int,
{
    if !inb(ts, p) {
        oob()
    } else if tag_at(ts, p) == end || tag_at(ts, p) == Tag::Eof {
        Ok((acc, p))
    } else {
        match sp_stmt(ts, p, depth) {
            Err(e) => Err(e),
            Ok((st, p1)) => {
                let p2 = sp_skip_seps(ts, p1);
                if !(p < p1 <= p2 < ts.len()) {
                    oob()
                } else {
                    sp_list_loop(ts, p2, end, depth, acc.push(st))
                }
            },
        }
    }
}

/// A whole program: statements up to the end of the text.
pub open spec fn sp_program(ts: Seq<TokV>) -> Result<Seq<SStmt>, PErr> {
    match sp_list(ts, 0, Tag::Eof, 0) {
        Err(e) => Err(e),
        Ok((b, _)) => Ok(b),
    }
}

/// The syntax tree of a text, or the line and message of the first error
/// (of the lexer or of the parser).
pub open spec fn parse_spec(cs: Seq<char>) -> Result<Seq<SStmt>, PErr> {
    match lex(cs) {
        Err(e) => Err(e),
        Ok(ts) => sp_program(ts),
    }
}

} // verus!

verus! {

/// A token sequence the parser can run on: it ends with EOF.
pub open spec fn pwf(v: Seq<TokV>) -> bool {
    v.len() >= 1 && v.last().tag == Tag::Eof
}

pub open spec fn rel_pos(r: Result<usize, ScriptError>, s: Result<int, PErr>) -> bool {
    match s {
        Ok(q) => r matches Ok(q2) && q2 == q,
        Err((l, m)) => r matches Err(e) && e.line == l && e.message@ == m,
    }
}

pub open spec fn rel_id(r: Result<(String, usize), ScriptError>, s: Result<(Seq<char>, int), PErr>) -> bool {
    match s {
        Ok((t, q)) => r matches Ok((x, q2)) && x@ == t && q2 == q,
        Err((l, m)) => r matches Err(e) && e.line == l && e.message@ == m,
    }
}

pub open spec fn rel_e(r: Result<(Expr, usize), ScriptError>, s: Result<(SExpr, int), PErr>) -> bool {
    match s {
        Ok((t, q)) => r matches Ok((x, q2)) && expr_view(x) == t && q2 == q,
        Err((l, m)) => r matches Err(e) && e.line == l && e.message@ == m,
    }
}

pub open spec fn rel_es(r: Result<(Vec<Expr>, usize), ScriptError>, s: Result<(Seq<SExpr>, int), PErr>) -> bool {
    match s {
        Ok((t, q)) => r matches Ok((x, q2)) && exprs_view(x@) == t && q2 == q,
        Err((l, m)) => r matches Err(e) && e.line == l && e.message@ == m,
    }
}

pub open spec fn rel_k(r: Result<(StmtKind, usize), ScriptError>, s: Result<(SStmtKind, int), PErr>) -> bool {
    match s {
        Ok((t, q)) => r matches Ok((x, q2)) && kind_view(x) == t && q2 == q,
        Err((l, m)) => r matches Err(e) && e.line == l && e.message@ == m,
    }
}

pub open spec fn rel_s(r: Result<(Stmt, usize), ScriptError>, s: Result<(SStmt, int), PErr>) -> bool {
    match s {
        Ok((t, q)) => r matches Ok((x, q2)) && stmt_view(x) == t && q2 == q,
        Err((l, m)) => r matches Err(e) && e.line == l && e.message@ == m,
    }
}

pub open spec fn rel_ss(r: Result<(Vec<Stmt>, usize), ScriptError>, s: Result<(Seq<SStmt>, int), PErr>) -> bool {
    match s {
        Ok((t, q)) => r matches Ok((x, q2)) && stmts_view(x@) == t && q2 == q,
        Err((l, m)) => r matches Err(e) && e.line == l && e.message@ == m,
    }
}

/// The position reached by a successful result.
pub open spec fn end_of<T>(r: Result<(T, usize), ScriptError>) -> int {
    match r {
        Ok((_, q)) => q as int,
        Err(_) => -1,
    }
}

proof fn lemma_exprs_view_push(s: Seq<Expr>, e: Expr)
    ensures
        exprs_view(s.push(e)) == exprs_view(s).push(expr_view(e)),
{
    assert(s.push(e).drop_last() =~= s);
}

proof fn lemma_stmts_view_push(s: Seq<Stmt>, e: Stmt)
    ensures
        stmts_view(s.push(e)) == stmts_view(s).push(stmt_view(e)),
{
    assert(s.push(e).drop_last() =~= s);
}

fn err(line: usize, msg: String) -> (r: ScriptError)
    ensures
        r.line == line,
        r.message@ == msg@,
{
    ScriptError::new(line, msg)
}

fn tag_of(ts: &Vec<Token>, p: usize) -> (r: Tag)
    requires
        p < ts@.len(),
    ensures
        r == tag_at(toks_view(ts@), p as int),
{
    ts[p].kind.tag()
}

fn line_of(ts: &Vec<Token>, p: usize) -> (r: usize)
    requires
        p < ts@.len(),
    ensures
        r == line_at(toks_view(ts@), p as int),
{
    ts[p].line
}

/// Text of the characters of `s` from `a` (inclusive) to `b` (exclusive).
fn slice_chars(s: &Vec<char>, a: usize, b: usize) -> (r: Vec<char>)
    requires
        a <= b <= s@.len(),
    ensures
        r@ == s@.subrange(a as int, b as int),
{
    let mut v: Vec<char> = Vec::new();
    let mut j = a;
    while j < b
        invariant
            a <= j <= b,
            b <= s@.len(),
            v@ == s@.subrange(a as int, j as int),
        decreases b - j,
    {
        v.push(s[j]);
        j += 1;
        assert(v@ =~= s@.subrange(a as int, j as int));
    }
    v
}

#[verifier::rlimit(40)]
fn num_display_exec(t: &Vec<char>) -> (r: Vec<char>)
    ensures
        r@ == num_display(t@),
{
    let n = t.len();
    let mut k: usize = 0;
    assert(t@.subrange(0, n as int) =~= t@);
    while k < n && t[k] != '.'
        invariant
            k <= n,
            n == t@.len(),
            dot_index(t@) == k + dot_index(t@.subrange(k as int, n as int)),
        decreases n - k,
    {
        assert(t@.subrange(k as int, n as int).drop_first() =~= t@.subrange(k + 1, n as int));
        k += 1;
    }
    assert(dot_index(t@.subrange(k as int, n as int)) == 0);
    let mut a: usize = 0;
    while a < k && t[a] == '0'
        invariant
            a <= k <= n,
            n == t@.len(),
            strip_leading_zeros(t@.subrange(0, k as int)) == strip_leading_zeros(t@.subrange(a as int, k as int)),
        decreases k - a,
    {
        assert(t@.subrange(a as int, k as int).drop_first() =~= t@.subrange(a + 1, k as int));
        a += 1;
    }
    let mut out = if a == k {
        let mut z = Vec::new();
        z.push('0');
        z
    } else {
        slice_chars(t, a, k)
    };
    assert(out@ =~= (if strip_leading_zeros(t@.subrange(0, k as int)).len() == 0 { seq!['0'] } else {
        strip_leading_zeros(t@.subrange(0, k as int)) }));
    if k < n {
        let mut b: usize = n;
        while b > k + 1 && t[b - 1] == '0'
            invariant
                k + 1 <= b <= n,
                n == t@.len(),
                strip_trailing_zeros(t@.subrange(k + 1, n as int)) == strip_trailing_zeros(t@.subrange(k + 1, b as int)),
            decreases b,
        {
            assert(t@.subrange(k + 1, b as int).drop_last() =~= t@.subrange(k + 1, b - 1));
            b -= 1;
        }
        if b > k + 1 {
            let ghost ip = out@;
            out.push('.');
            let frac = slice_chars(t, k + 1, b);
            let mut i: usize = 0;
            while i < frac.len()
                invariant
                    i <= frac@.len(),
                    out@ == ip + seq!['.'] + frac@.take(i as int),
                decreases frac@.len() - i,
            {
                out.push(frac[i]);
                i += 1;
                assert(out@ =~= ip + seq!['.'] + frac@.take(i as int));
            }
            assert(frac@.take(frac@.len() as int) =~= frac@);
        } else {
            assert(t@.subrange(k + 1, b as int).len() == 0);
        }
    }
    out
}

fn describe_exec(t: &Token) -> (r: String)
    ensures
        r@ == describe(t.spec_view()),
{
    let mut m = String::new();
    match &t.kind {
        TokKind::Ident(s) => {
            push_str(&mut m, "'");
            push_str(&mut m, s.as_str());
            push_str(&mut m, "'");
            assert(m@ =~= describe(t.spec_view()));
        },
        TokKind::Number(s) => {
            let cs = chars_of(s.as_str());
            let d = num_display_exec(&cs);
            push_str(&mut m, "o numero '");
            push_chars(&mut m, d.as_slice());
            push_str(&mut m, "'");
            assert(m@ =~= describe(t.spec_view()));
        },
        TokKind::Str(s) => {
            push_str(&mut m, "o texto '");
            push_str(&mut m, s.as_str());
            push_str(&mut m, "'");
            assert(m@ =~= describe(t.spec_view()));
        },
        k => {
            push_str(&mut m, tag_desc_exec(k.tag()));
            assert(m@ =~= describe(t.spec_view()));
        },
    }
    m
}

fn expect_msg_exec(want: Tag, ctx: &str, found: &Token) -> (r: String)
    requires
        want != Tag::Ident,
        want != Tag::Number,
        want != Tag::Str,
    ensures
        r@ == expect_msg(want, ctx@, found.spec_view()),
{
    let mut m = String::new();
    push_str(&mut m, "esperava ");
    push_str(&mut m, tag_desc_exec(want));
    push_str(&mut m, " em ");
    push_str(&mut m, ctx);
    push_str(&mut m, ", encontrei ");
    let d = describe_exec(found);
    push_str(&mut m, d.as_str());
    assert(m@ =~= expect_msg(want, ctx@, found.spec_view()));
    m
}

fn expect(ts: &Vec<Token>, p: usize, want: Tag, ctx: &str) -> (r: Result<usize, ScriptError>)
    requires
        p < ts@.len(),
        want != Tag::Ident,
        want != Tag::Number,
        want != Tag::Str,
    ensures
        rel_pos(r, sp_expect(toks_view(ts@), p as int, want, ctx@)),
{
    let _n = ts.len();
    if tag_of(ts, p) == want {
        Ok(p + 1)
    } else {
        Err(err(line_of(ts, p), expect_msg_exec(want, ctx, &ts[p])))
    }
}

fn expect_closing(ts: &Vec<Token>, p: usize, want: Tag, open_line: usize, ctx: &str) -> (r: Result<usize, ScriptError>)
    requires
        p < ts@.len(),
        want != Tag::Ident,
        want != Tag::Number,
        want != Tag::Str,
    ensures
        rel_pos(r, sp_expect_closing(toks_view(ts@), p as int, want, open_line as int, ctx@)),
{
    let _n = ts.len();
    let t = tag_of(ts, p);
    if t == want {
        Ok(p + 1)
    } else if t == Tag::Eof {
        Err(err(open_line, expect_msg_exec(want, ctx, &ts[p])))
    } else {
        Err(err(line_of(ts, p), expect_msg_exec(want, ctx, &ts[p])))
    }
}

fn expect_ident(ts: &Vec<Token>, p: usize) -> (r: Result<(String, usize), ScriptError>)
    requires
        p < ts@.len(),
    ensures
        rel_id(r, sp_expect_ident(toks_view(ts@), p as int)),
{
    let _n = ts.len();
    match &ts[p].kind {
        TokKind::Ident(name) => Ok((name.clone(), p + 1)),
        _ => {
            let mut m = String::new();
            push_str(&mut m, "esperava um identificador, encontrei ");
            let d = describe_exec(&ts[p]);
            push_str(&mut m, d.as_str());
            assert(m@ =~= "esperava um identificador, encontrei "@ + describe(toks_view(ts@)[p as int]));
            Err(err(line_of(ts, p), m))
        },
    }
}

fn skip_bare_newlines(ts: &Vec<Token>, p: usize) -> (r: usize)
    requires
        p < ts@.len(),
        pwf(toks_view(ts@)),
    ensures
        r == sp_skip_bare_newlines(toks_view(ts@), p as int),
        p <= r < ts@.len(),
{
    let n = ts.len();
    let mut q = p;
    while tag_of(ts, q) == Tag::Newline
        invariant
            n == ts@.len(),
            p <= q < ts@.len(),
            pwf(toks_view(ts@)),
            sp_skip_bare_newlines(toks_view(ts@), p as int) == sp_skip_bare_newlines(toks_view(ts@), q as int),
        decreases ts@.len() - q,
    {
        q += 1;
    }
    q
}

fn skip_seps(ts: &Vec<Token>, p: usize) -> (r: usize)
    requires
        p < ts@.len(),
        pwf(toks_view(ts@)),
    ensures
        r == sp_skip_seps(toks_view(ts@), p as int),
        p <= r < ts@.len(),
{
    let n = ts.len();
    let mut q = p;
    while tag_of(ts, q) == Tag::Newline || tag_of(ts, q) == Tag::Semicolon
        invariant
            n == ts@.len(),
            p <= q < ts@.len(),
            pwf(toks_view(ts@)),
            sp_skip_seps(toks_view(ts@), p as int) == sp_skip_seps(toks_view(ts@), q as int),
        decreases ts@.len() - q,
    {
        q += 1;
    }
    q
}

} // verus!

verus! {

fn level_op_exec(level: usize, t: Tag) -> (r: Option<BinOp>)
    ensures
        r == level_op(level as int, t),
{
    if level == 0 {
        if t == Tag::Or { Some(BinOp::Or) } else { None }
    } else if level == 1 {
        if t == Tag::And { Some(BinOp::And) } else { None }
    } else if level == 2 {
        match t {
            Tag::EqEq => Some(BinOp::Eq),
            Tag::NotEq => Some(BinOp::NotEq),
            Tag::Lt => Some(BinOp::Lt),
            Tag::Gt => Some(BinOp::Gt),
            Tag::Le => Some(BinOp::Le),
            Tag::Ge => Some(BinOp::Ge),
            _ => None,
        }
    } else if level == 3 {
        match t {
            Tag::Plus => Some(BinOp::Add),
            Tag::Minus => Some(BinOp::Sub),
            _ => None,
        }
    } else {
        match t {
            Tag::Star => Some(BinOp::Mul),
            Tag::Slash => Some(BinOp::Div),
            Tag::Percent => Some(BinOp::Mod),
            _ => None,
        }
    }
}

fn e_expr(ts: &Vec<Token>, p: usize) -> (r: Result<(Expr, usize), ScriptError>)
    requires
        pwf(toks_view(ts@)),
        p < ts@.len(),
    ensures
        rel_e(r, sp_expr(toks_view(ts@), p as int)),
        r is Ok ==> p < end_of(r) < ts@.len(),
    decreases ts@.len() - p, 40int,
{
    let _n = ts.len();
    e_level(ts, p, 0)
}

fn e_level(ts: &Vec<Token>, p: usize, level: usize) -> (r: Result<(Expr, usize), ScriptError>)
    requires
        pwf(toks_view(ts@)),
        p < ts@.len(),
        level <= 4,
    ensures
        rel_e(r, sp_level(toks_view(ts@), p as int, level as int)),
        r is Ok ==> p < end_of(r) < ts@.len(),
    decreases ts@.len() - p, 30 - 2 * level,
{
    let _n = ts.len();
    match e_operand(ts, p, level + 1) {
        Err(e) => Err(e),
        Ok((l, p1)) => e_level_rest(ts, p1, level, l),
    }
}

fn e_operand(ts: &Vec<Token>, p: usize, level: usize) -> (r: Result<(Expr, usize), ScriptError>)
    requires
        pwf(toks_view(ts@)),
        p < ts@.len(),
        1 <= level <= 5,
    ensures
        rel_e(r, sp_operand(toks_view(ts@), p as int, level as int)),
        r is Ok ==> p < end_of(r) < ts@.len(),
    decreases ts@.len() - p, 31 - 2 * level,
{
    let _n = ts.len();
    if level <= 4 {
        e_level(ts, p, level)
    } else {
        e_unary(ts, p)
    }
}

fn e_level_rest(ts: &Vec<Token>, p: usize, level: usize, left: Expr) -> (r: Result<(Expr, usize), ScriptError>)
    requires
        pwf(toks_view(ts@)),
        p < ts@.len(),
        level <= 4,
    ensures
        rel_e(r, sp_level_rest(toks_view(ts@), p as int, level as int, expr_view(left))),
        r is Ok ==> p <= end_of(r) < ts@.len(),
    decreases ts@.len() - p, 30 - 2 * level,
{
    let _n = ts.len();
    match level_op_exec(level, tag_of(ts, p)) {
        None => Ok((left, p)),
        Some(op) => match e_operand(ts, p + 1, level + 1) {
            Err(e) => Err(e),
            Ok((rt, p2)) => e_level_rest(ts, p2, level, Expr::Binary(Box::new(left), op, Box::new(rt))),
        },
    }
}

fn e_unary(ts: &Vec<Token>, p: usize) -> (r: Result<(Expr, usize), ScriptError>)
    requires
        pwf(toks_view(ts@)),
        p < ts@.len(),
    ensures
        rel_e(r, sp_unary(toks_view(ts@), p as int)),
        r is Ok ==> p < end_of(r) < ts@.len(),
    decreases ts@.len() - p, 9int,
{
    let _n = ts.len();
    let t = tag_of(ts, p);
    if t == Tag::Minus || t == Tag::Not {
        match e_unary(ts, p + 1) {
            Err(e) => Err(e),
            Ok((e, p2)) => {
                let op = if t == Tag::Minus { UnaryOp::Neg } else { UnaryOp::Not };
                Ok((Expr::Unary(op, Box::new(e)), p2))
            },
        }
    } else {
        e_postfix(ts, p)
    }
}

fn e_postfix(ts: &Vec<Token>, p: usize) -> (r: Result<(Expr, usize), ScriptError>)
    requires
        pwf(toks_view(ts@)),
        p < ts@.len(),
    ensures
        rel_e(r, sp_postfix(toks_view(ts@), p as int)),
        r is Ok ==> p < end_of(r) < ts@.len(),
    decreases ts@.len() - p, 8int,
{
    let _n = ts.len();
    match e_primary(ts, p) {
        Err(e) => Err(e),
        Ok((e, p1)) => e_postfix_rest(ts, p1, e),
    }
}

fn e_postfix_rest(ts: &Vec<Token>, p: usize, e: Expr) -> (r: Result<(Expr, usize), ScriptError>)
    requires
        pwf(toks_view(ts@)),
        p < ts@.len(),
    ensures
        rel_e(r, sp_postfix_rest(toks_view(ts@), p as int, expr_view(e))),
        r is Ok ==> p <= end_of(r) < ts@.len(),
    decreases ts@.len() - p, 8int,
{
    let _n = ts.len();
    let t = tag_of(ts, p);
    if t == Tag::LParen {
        match e {
            Expr::Ident(name) => {
                let open_line = line_of(ts, p);
                match e_args(ts, p + 1) {
                    Err(er) => Err(er),
                    Ok((args, p2)) => match expect_closing(ts, p2, Tag::RParen, open_line, "fechando chamada de funcao") {
                        Err(er) => Err(er),
                        Ok(p3) => e_postfix_rest(ts, p3, Expr::Call(name, args)),
                    },
                }
            },
            other => Ok((other, p)),
        }
    } else if t == Tag::LBracket {
        let open_line = line_of(ts, p);
        match e_expr(ts, p + 1) {
            Err(er) => Err(er),
            Ok((idx, p2)) => match expect_closing(ts, p2, Tag::RBracket, open_line, "fechando indice") {
                Err(er) => Err(er),
                Ok(p3) => e_postfix_rest(ts, p3, Expr::Index(Box::new(e), Box::new(idx))),
            },
        }
    } else if t == Tag::Dot {
        match expect_ident(ts, p + 1) {
            Err(er) => Err(er),
            Ok((f, p2)) => e_postfix_rest(ts, p2, Expr::Field(Box::new(e), f)),
        }
    } else {
        Ok((e, p))
    }
}

fn e_args(ts: &Vec<Token>, p: usize) -> (r: Result<(Vec<Expr>, usize), ScriptError>)
    requires
        pwf(toks_view(ts@)),
        p < ts@.len(),
    ensures
        rel_es(r, sp_args(toks_view(ts@), p as int)),
        r is Ok ==> p <= end_of(r) < ts@.len(),
    decreases ts@.len() - p, 50int,
{
    let _n = ts.len();
    let t = tag_of(ts, p);
    if t == Tag::RParen || t == Tag::Eof {
        let v: Vec<Expr> = Vec::new();
        assert(exprs_view(v@) =~= Seq::<SExpr>::empty());
        Ok((v, p))
    } else {
        match e_expr(ts, p) {
            Err(e) => Err(e),
            Ok((a, p1)) => {
                let mut v: Vec<Expr> = Vec::new();
                let ghost va = expr_view(a);
                v.push(a);
                proof {
                    lemma_exprs_view_push(Seq::empty(), v@[0]);
                    assert(v@ =~= Seq::<Expr>::empty().push(v@[0]));
                    assert(exprs_view(Seq::<Expr>::empty()) =~= Seq::<SExpr>::empty());
                    assert(exprs_view(v@) =~= seq![va]);
                }
                e_args_rest(ts, p1, v)
            },
        }
    }
}

fn e_args_rest(ts: &Vec<Token>, p: usize, acc: Vec<Expr>) -> (r: Result<(Vec<Expr>, usize), ScriptError>)
    requires
        pwf(toks_view(ts@)),
        p < ts@.len(),
    ensures
        rel_es(r, sp_args_rest(toks_view(ts@), p as int, exprs_view(acc@))),
        r is Ok ==> p <= end_of(r) < ts@.len(),
    decreases ts@.len() - p, 50int,
{
    let _n = ts.len();
    if tag_of(ts, p) == Tag::Comma {
        match e_expr(ts, p + 1) {
            Err(e) => Err(e),
            Ok((a, p2)) => {
                let mut acc = acc;
                let ghost old_acc = acc@;
                proof {
                    lemma_exprs_view_push(old_acc, a);
                }
                acc.push(a);
                e_args_rest(ts, p2, acc)
            },
        }
    } else {
        Ok((acc, p))
    }
}

fn select_msg_exec(word: &str, found: &String) -> (r: String)
    ensures
        r@ == select_msg(word@, found@),
{
    let mut m = String::new();
    if crate::text::str_eq(word, "mochila") {
        push_str(&mut m, "'selecionar' so aceita 'mochila' como fonte hoje, encontrei '");
        push_str(&mut m, found.as_str());
        push_str(&mut m, "'");
    } else {
        push_str(&mut m, "esperava '");
        push_str(&mut m, word);
        push_str(&mut m, ":' em 'selecionar(mochila, onde: ..., limite: ...)', encontrei '");
        push_str(&mut m, found.as_str());
        push_str(&mut m, "'");
    }
    assert(m@ =~= select_msg(word@, found@));
    m
}

fn e_select(ts: &Vec<Token>, p: usize) -> (r: Result<(Expr, usize), ScriptError>)
    requires
        pwf(toks_view(ts@)),
        p < ts@.len(),
        tag_at(toks_view(ts@), p as int) == Tag::Selecionar,
    ensures
        rel_e(r, sp_select(toks_view(ts@), p as int)),
        r is Ok ==> p < end_of(r) < ts@.len(),
    decreases ts@.len() - p, 6int,
{
    let _n = ts.len();
    let p1 = p + 1;
    let open_line = line_of(ts, p1);
    let p2 = match expect(ts, p1, Tag::LParen, "apos 'selecionar'") {
        Err(e) => return Err(e),
        Ok(q) => q,
    };
    let (src, p3) = match expect_ident(ts, p2) {
        Err(e) => return Err(e),
        Ok(x) => x,
    };
    if !crate::text::str_eq(src.as_str(), "mochila") {
        return Err(err(line_of(ts, p3), select_msg_exec("mochila", &src)));
    }
    let p4 = match expect(ts, p3, Tag::Comma, "apos 'mochila' em 'selecionar(mochila, onde: ..., limite: ...)'") {
        Err(e) => return Err(e),
        Ok(q) => q,
    };
    let (onde, p5) = match expect_ident(ts, p4) {
        Err(e) => return Err(e),
        Ok(x) => x,
    };
    if !crate::text::str_eq(onde.as_str(), "onde") {
        return Err(err(line_of(ts, p5), select_msg_exec("onde", &onde)));
    }
    let p6 = match expect(ts, p5, Tag::Colon, "apos 'onde' em 'selecionar(...)'") {
        Err(e) => return Err(e),
        Ok(q) => q,
    };
    let (pred, p7) = match e_expr(ts, p6) {
        Err(e) => return Err(e),
        Ok(x) => x,
    };
    let p8 = match expect(ts, p7, Tag::Comma, "apos a condicao de 'onde:' em 'selecionar(...)'") {
        Err(e) => return Err(e),
        Ok(q) => q,
    };
    let (lim, p9) = match expect_ident(ts, p8) {
        Err(e) => return Err(e),
        Ok(x) => x,
    };
    if !crate::text::str_eq(lim.as_str(), "limite") {
        return Err(err(line_of(ts, p9), select_msg_exec("limite", &lim)));
    }
    let p10 = match expect(ts, p9, Tag::Colon, "apos 'limite' em 'selecionar(...)'") {
        Err(e) => return Err(e),
        Ok(q) => q,
    };
    let (limit, p11) = match e_expr(ts, p10) {
        Err(e) => return Err(e),
        Ok(x) => x,
    };
    let p12 = match expect_closing(ts, p11, Tag::RParen, open_line, "fechando 'selecionar(...)'") {
        Err(e) => return Err(e),
        Ok(q) => q,
    };
    Ok((Expr::Select { predicate: Box::new(pred), limit: Box::new(limit) }, p12))
}

fn e_primary(ts: &Vec<Token>, p: usize) -> (r: Result<(Expr, usize), ScriptError>)
    requires
        pwf(toks_view(ts@)),
        p < ts@.len(),
    ensures
        rel_e(r, sp_primary(toks_view(ts@), p as int)),
        r is Ok ==> p < end_of(r) < ts@.len(),
    decreases ts@.len() - p, 7int,
{
    let _n = ts.len();
    match &ts[p].kind {
        TokKind::Number(n) => Ok((Expr::Number(n.clone()), p + 1)),
        TokKind::Str(s) => Ok((Expr::Str(s.clone()), p + 1)),
        TokKind::True => Ok((Expr::Bool(true), p + 1)),
        TokKind::False => Ok((Expr::Bool(false), p + 1)),
        TokKind::Ident(name) => Ok((Expr::Ident(name.clone()), p + 1)),
        TokKind::LParen => {
            let open_line = line_of(ts, p);
            match e_expr(ts, p + 1) {
                Err(e) => Err(e),
                Ok((e, p2)) => match expect_closing(ts, p2, Tag::RParen, open_line, "fechando expressao entre parenteses") {
                    Err(er) => Err(er),
                    Ok(p3) => Ok((e, p3)),
                },
            }
        },
        TokKind::Selecionar => e_select(ts, p),
        other => {
            let mut m = String::new();
            push_str(&mut m, "token inesperado: ");
            push_str(&mut m, tag_name_exec(other.tag()));
            assert(m@ =~= "token inesperado: "@ + tag_name(other.spec_tag()));
            Err(err(line_of(ts, p), m))
        },
    }
}

} // verus!

verus! {

fn s_stmt(ts: &Vec<Token>, p: usize, depth: usize) -> (r: Result<(Stmt, usize), ScriptError>)
    requires
        pwf(toks_view(ts@)),
        p < ts@.len(),
        depth <= p,
    ensures
        rel_s(r, sp_stmt(toks_view(ts@), p as int, depth as int)),
        r is Ok ==> p < end_of(r) < ts@.len(),
    decreases ts@.len() - p, 3int,
{
    let line = line_of(ts, p);
    match s_stmt_kind(ts, p, depth) {
        Err(e) => Err(e),
        Ok((k, q)) => Ok((Stmt { line, kind: k }, q)),
    }
}

#[verifier::rlimit(100)]
fn s_stmt_kind(ts: &Vec<Token>, p: usize, depth: usize) -> (r: Result<(StmtKind, usize), ScriptError>)
    requires
        pwf(toks_view(ts@)),
        p < ts@.len(),
        depth <= p,
    ensures
        rel_k(r, sp_stmt_kind(toks_view(ts@), p as int, depth as int)),
        r is Ok ==> p < end_of(r) < ts@.len(),
    decreases ts@.len() - p, 2int,
{
    let _n = ts.len();
    let t = tag_of(ts, p);
    if t == Tag::If {
        let (c, p1) = match e_expr(ts, p + 1) {
            Err(e) => return Err(e),
            Ok(x) => x,
        };
        let (th, p2) = match s_block(ts, p1, depth) {
            Err(e) => return Err(e),
            Ok(x) => x,
        };
        let p3 = skip_bare_newlines(ts, p2);
        if tag_of(ts, p3) == Tag::Else {
            match s_block(ts, p3 + 1, depth) {
                Err(e) => Err(e),
                Ok((el, p4)) => Ok((StmtKind::If { cond: c, then_branch: th, else_branch: Some(el) }, p4)),
            }
        } else {
            Ok((StmtKind::If { cond: c, then_branch: th, else_branch: None }, p3))
        }
    } else if t == Tag::While {
        let (c, p1) = match e_expr(ts, p + 1) {
            Err(e) => return Err(e),
            Ok(x) => x,
        };
        match s_block(ts, p1, depth) {
            Err(e) => Err(e),
            Ok((body, p2)) => Ok((StmtKind::While { cond: c, body }, p2)),
        }
    } else if t == Tag::For {
        let (var, p1) = match expect_ident(ts, p + 1) {
            Err(e) => return Err(e),
            Ok(x) => x,
        };
        let p2 = match expect(ts, p1, Tag::In, "em 'for x in a..b'") {
            Err(e) => return Err(e),
            Ok(q) => q,
        };
        let (from, p3) = match e_expr(ts, p2) {
            Err(e) => return Err(e),
            Ok(x) => x,
        };
        let p4 = match expect(ts, p3, Tag::DotDot, "em 'for x in a..b'") {
            Err(e) => return Err(e),
            Ok(q) => q,
        };
        let (to, p5) = match e_expr(ts, p4) {
            Err(e) => return Err(e),
            Ok(x) => x,
        };
        match s_block(ts, p5, depth) {
            Err(e) => Err(e),
            Ok((body, p6)) => Ok((StmtKind::For { var, from, to, body }, p6)),
        }
    } else if t == Tag::Func {
        if depth > 0 {
            let mut m = String::new();
            push_str(
                &mut m,
                "'func' so ecoa se gravada no nivel superior do script - tire-a de dentro do if/while/for/func",
            );
            assert(m@ =~= func_nested_msg());
            return Err(err(line_of(ts, p), m));
        }
        let (name, p1) = match expect_ident(ts, p + 1) {
            Err(e) => return Err(e),
            Ok(x) => x,
        };
        let open_line = line_of(ts, p1);
        let p2 = match expect(ts, p1, Tag::LParen, "apos o nome em 'func nome()'") {
            Err(e) => return Err(e),
            Ok(q) => q,
        };
        let t2 = tag_of(ts, p2);
        if t2 == Tag::RParen {
            match s_block(ts, p2 + 1, depth) {
                Err(e) => Err(e),
                Ok((body, p3)) => Ok((StmtKind::FuncDef { name, body }, p3)),
            }
        } else if t2 == Tag::Eof {
            Err(err(open_line, expect_msg_exec(Tag::RParen, "fechando os parenteses de 'func nome()'", &ts[p2])))
        } else {
            let mut m = String::new();
            push_str(&mut m, "a Piramide nao aceita parametro em func: escreva 'func nome()' com os parenteses vazios");
            assert(m@ =~= func_param_msg());
            Err(err(line_of(ts, p2), m))
        }
    } else if t == Tag::Invocar {
        let (name, p1) = match expect_ident(ts, p + 1) {
            Err(e) => return Err(e),
            Ok(x) => x,
        };
        match s_block(ts, p1, depth) {
            Err(e) => Err(e),
            Ok((body, p2)) => Ok((StmtKind::Invoke { name, body }, p2)),
        }
    } else if t == Tag::Ident && p + 1 < ts.len() && tag_of(ts, p + 1) == Tag::Assign {
        let name = match &ts[p].kind {
            TokKind::Ident(s) => s.clone(),
            _ => String::new(),
        };
        match e_expr(ts, p + 2) {
            Err(e) => Err(e),
            Ok((v, p2)) => Ok((StmtKind::Assign(name, v), p2)),
        }
    } else {
        match e_expr(ts, p) {
            Err(e) => Err(e),
            Ok((e, p1)) => Ok((StmtKind::Expr(e), p1)),
        }
    }
}

#[verifier::rlimit(60)]
fn s_block(ts: &Vec<Token>, p: usize, depth: usize) -> (r: Result<(Vec<Stmt>, usize), ScriptError>)
    requires
        pwf(toks_view(ts@)),
        p < ts@.len(),
        depth <= p,
    ensures
        rel_ss(r, sp_block(toks_view(ts@), p as int, depth as int)),
        r is Ok ==> p < end_of(r) < ts@.len(),
    decreases ts@.len() - p, 6int,
{
    let _n = ts.len();
    let t = tag_of(ts, p);
    if t == Tag::Colon {
        let p1 = match expect(ts, p + 1, Tag::Newline, "depois de ':'") {
            Err(e) => return Err(e),
            Ok(q) => q,
        };
        let p2 = match expect(ts, p1, Tag::Indent, "inicio de bloco indentado") {
            Err(e) => return Err(e),
            Ok(q) => q,
        };
        let (b, p3) = match s_list(ts, p2, Tag::Dedent, depth + 1) {
            Err(e) => return Err(e),
            Ok(x) => x,
        };
        match expect(ts, p3, Tag::Dedent, "fim de bloco indentado") {
            Err(e) => Err(e),
            Ok(p4) => Ok((b, p4)),
        }
    } else if t == Tag::LBrace {
        let open_line = line_of(ts, p);
        let (b, p2) = match s_list(ts, p + 1, Tag::RBrace, depth + 1) {
            Err(e) => return Err(e),
            Ok(x) => x,
        };
        match expect_closing(ts, p2, Tag::RBrace, open_line, "fim de bloco '{}'") {
            Err(e) => Err(e),
            Ok(p3) => Ok((b, p3)),
        }
    } else {
        let mut m = String::new();
        push_str(&mut m, "esperava ':' ou '{' para abrir um bloco, encontrei ");
        let d = describe_exec(&ts[p]);
        push_str(&mut m, d.as_str());
        assert(m@ =~= block_open_msg(toks_view(ts@)[p as int]));
        Err(err(line_of(ts, p), m))
    }
}

fn s_list(ts: &Vec<Token>, p: usize, end: Tag, depth: usize) -> (r: Result<(Vec<Stmt>, usize), ScriptError>)
    requires
        pwf(toks_view(ts@)),
        p < ts@.len(),
        depth <= p,
    ensures
        rel_ss(r, sp_list(toks_view(ts@), p as int, end, depth as int)),
        r is Ok ==> p <= end_of(r) < ts@.len(),
    decreases ts@.len() - p, 5int,
{
    let p0 = skip_seps(ts, p);
    let v: Vec<Stmt> = Vec::new();
    assert(stmts_view(v@) =~= Seq::<SStmt>::empty());
    s_list_loop(ts, p0, end, depth, v)
}

fn s_list_loop(ts: &Vec<Token>, p: usize, end: Tag, depth: usize, acc: Vec<Stmt>) -> (r: Result<
    (Vec<Stmt>, usize),
    ScriptError,
>)
    requires
        pwf(toks_view(ts@)),
        p < ts@.len(),
        depth <= p,
    ensures
        rel_ss(r, sp_list_loop(toks_view(ts@), p as int, end, depth as int, stmts_view(acc@))),
        r is Ok ==> p <= end_of(r) < ts@.len(),
    decreases ts@.len() - p, 4int,
{
    let t = tag_of(ts, p);
    if t == end || t == Tag::Eof {
        return Ok((acc, p));
    }
    match s_stmt(ts, p, depth) {
        Err(e) => Err(e),
        Ok((st, p1)) => {
            let p2 = skip_seps(ts, p1);
            let mut acc = acc;
            proof {
                lemma_stmts_view_push(acc@, st);
            }
            acc.push(st);
            s_list_loop(ts, p2, end, depth, acc)
        },
    }
}

/// The statements of a program, exactly as `parse_spec` describes them.
pub fn parse(src: &str) -> (r: Result<Vec<Stmt>, ScriptError>)
    requires
        src@.len() * 4 <= usize::MAX,
    ensures
        match parse_spec(src@) {
            Ok(ss) => r matches Ok(v) && stmts_view(v@) == ss,
            Err((l, m)) => r matches Err(e) && e.line == l && e.message@ == m,
        },
{
    proof {
        lemma_lex_structure(src@);
    }
    let tokens = match tokenize(src) {
        Err(e) => return Err(e),
        Ok(ts) => ts,
    };
    assert(toks_view(tokens@).len() == tokens@.len());
    match s_list(&tokens, 0, Tag::Eof, 0) {
        Err(e) => Err(e),
        Ok((b, _)) => Ok(b),
    }
}

} // verus!
