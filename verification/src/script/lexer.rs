//! Tokenizer of the duel language.
//!
//! It emits NEWLINE/INDENT/DEDENT in the manner of Python for blocks written
//! by indentation, but suppresses them while a parenthesis, bracket or brace
//! is open: that is what lets the `{}` style live beside the `:` style in the
//! same script. Inside `{...}` indentation is only cosmetic, and the parser
//! separates statements by recognising where each one starts.
//!
//! The lexer is specified by a step function over a state (`lex_step`) and
//! the run of those steps from the initial state (`lex`); `tokenize` is
//! proved to compute exactly that run.

use vstd::prelude::*;
use super::error::ScriptError;
use crate::text::{
    char_alphabetic, char_alphanumeric, chars_eq_str, chars_of, is_alphabetic, is_alphanumeric,
    push_char, push_str, string_from,
};

verus! {

#[derive(Debug, Clone, PartialEq)]
pub enum TokKind {
    Newline,
    Indent,
    Dedent,
    Eof,
    Ident(String),
    /// a number literal, as written: digits, optionally followed by a '.'
    /// and more digits
    Number(String),
    Str(String),
    True,
    False,
    If,
    Else,
    While,
    For,
    In,
    Func,
    Invocar,
    /// `selecionar`, the only keyword among `selecionar(mochila, onde: ..,
    /// limite: ..)`
    Selecionar,
    Plus,
    Minus,
    Star,
    Slash,
    Percent,
    Assign,
    EqEq,
    NotEq,
    Lt,
    Gt,
    Le,
    Ge,
    And,
    Or,
    Not,
    LParen,
    RParen,
    LBracket,
    RBracket,
    LBrace,
    RBrace,
    Colon,
    Comma,
    Dot,
    DotDot,
    Semicolon,
}

/// The kind of a token without its text.
#[derive(Debug, Clone, Copy, PartialEq, Eq, Structural)]
pub enum Tag {
    Newline,
    Indent,
    Dedent,
    Eof,
    Ident,
    Number,
    Str,
    True,
    False,
    If,
    Else,
    While,
    For,
    In,
    Func,
    Invocar,
    Selecionar,
    Plus,
    Minus,
    Star,
    Slash,
    Percent,
    Assign,
    EqEq,
    NotEq,
    Lt,
    Gt,
    Le,
    Ge,
    And,
    Or,
    Not,
    LParen,
    RParen,
    LBracket,
    RBracket,
    LBrace,
    RBrace,
    Colon,
    Comma,
    Dot,
    DotDot,
    Semicolon,
}

impl TokKind {
    pub open spec fn spec_tag(&self) -> Tag {
        match self {
            TokKind::Newline => Tag::Newline,
            TokKind::Indent => Tag::Indent,
            TokKind::Dedent => Tag::Dedent,
            TokKind::Eof => Tag::Eof,
            TokKind::Ident(_) => Tag::Ident,
            TokKind::Number(_) => Tag::Number,
            TokKind::Str(_) => Tag::Str,
            TokKind::True => Tag::True,
            TokKind::False => Tag::False,
            TokKind::If => Tag::If,
            TokKind::Else => Tag::Else,
            TokKind::While => Tag::While,
            TokKind::For => Tag::For,
            TokKind::In => Tag::In,
            TokKind::Func => Tag::Func,
            TokKind::Invocar => Tag::Invocar,
            TokKind::Selecionar => Tag::Selecionar,
            TokKind::Plus => Tag::Plus,
            TokKind::Minus => Tag::Minus,
            TokKind::Star => Tag::Star,
            TokKind::Slash => Tag::Slash,
            TokKind::Percent => Tag::Percent,
            TokKind::Assign => Tag::Assign,
            TokKind::EqEq => Tag::EqEq,
            TokKind::NotEq => Tag::NotEq,
            TokKind::Lt => Tag::Lt,
            TokKind::Gt => Tag::Gt,
            TokKind::Le => Tag::Le,
            TokKind::Ge => Tag::Ge,
            TokKind::And => Tag::And,
            TokKind::Or => Tag::Or,
            TokKind::Not => Tag::Not,
            TokKind::LParen => Tag::LParen,
            TokKind::RParen => Tag::RParen,
            TokKind::LBracket => Tag::LBracket,
            TokKind::RBracket => Tag::RBracket,
            TokKind::LBrace => Tag::LBrace,
            TokKind::RBrace => Tag::RBrace,
            TokKind::Colon => Tag::Colon,
            TokKind::Comma => Tag::Comma,
            TokKind::Dot => Tag::Dot,
            TokKind::DotDot => Tag::DotDot,
            TokKind::Semicolon => Tag::Semicolon,
        }
    }

    /// The text carried by identifiers, numbers and strings; empty for the
    /// other kinds.
    pub open spec fn spec_text(&self) -> Seq<char> {
        match self {
            TokKind::Ident(s) => s@,
            TokKind::Number(s) => s@,
            TokKind::Str(s) => s@,
            _ => Seq::empty(),
        }
    }

    pub fn tag(&self) -> (r: Tag)
        ensures
            r == self.spec_tag(),
    {
        match self {
            TokKind::Newline => Tag::Newline,
            TokKind::Indent => Tag::Indent,
            TokKind::Dedent => Tag::Dedent,
            TokKind::Eof => Tag::Eof,
            TokKind::Ident(_) => Tag::Ident,
            TokKind::Number(_) => Tag::Number,
            TokKind::Str(_) => Tag::Str,
            TokKind::True => Tag::True,
            TokKind::False => Tag::False,
            TokKind::If => Tag::If,
            TokKind::Else => Tag::Else,
            TokKind::While => Tag::While,
            TokKind::For => Tag::For,
            TokKind::In => Tag::In,
            TokKind::Func => Tag::Func,
            TokKind::Invocar => Tag::Invocar,
            TokKind::Selecionar => Tag::Selecionar,
            TokKind::Plus => Tag::Plus,
            TokKind::Minus => Tag::Minus,
            TokKind::Star => Tag::Star,
            TokKind::Slash => Tag::Slash,
            TokKind::Percent => Tag::Percent,
            TokKind::Assign => Tag::Assign,
            TokKind::EqEq => Tag::EqEq,
            TokKind::NotEq => Tag::NotEq,
            TokKind::Lt => Tag::Lt,
            TokKind::Gt => Tag::Gt,
            TokKind::Le => Tag::Le,
            TokKind::Ge => Tag::Ge,
            TokKind::And => Tag::And,
            TokKind::Or => Tag::Or,
            TokKind::Not => Tag::Not,
            TokKind::LParen => Tag::LParen,
            TokKind::RParen => Tag::RParen,
            TokKind::LBracket => Tag::LBracket,
            TokKind::RBracket => Tag::RBracket,
            TokKind::LBrace => Tag::LBrace,
            TokKind::RBrace => Tag::RBrace,
            TokKind::Colon => Tag::Colon,
            TokKind::Comma => Tag::Comma,
            TokKind::Dot => Tag::Dot,
            TokKind::DotDot => Tag::DotDot,
            TokKind::Semicolon => Tag::Semicolon,
        }
    }

    /// The token kind of a tag that carries no text.
    pub fn from_tag(t: Tag) -> (r: TokKind)
        requires
            t != Tag::Ident,
            t != Tag::Number,
            t != Tag::Str,
        ensures
            r.spec_tag() == t,
            r.spec_text() == Seq::<char>::empty(),
    {
        match t {
            Tag::Newline => TokKind::Newline,
            Tag::Indent => TokKind::Indent,
            Tag::Dedent => TokKind::Dedent,
            Tag::Eof => TokKind::Eof,
            Tag::True => TokKind::True,
            Tag::False => TokKind::False,
            Tag::If => TokKind::If,
            Tag::Else => TokKind::Else,
            Tag::While => TokKind::While,
            Tag::For => TokKind::For,
            Tag::In => TokKind::In,
            Tag::Func => TokKind::Func,
            Tag::Invocar => TokKind::Invocar,
            Tag::Selecionar => TokKind::Selecionar,
            Tag::Plus => TokKind::Plus,
            Tag::Minus => TokKind::Minus,
            Tag::Star => TokKind::Star,
            Tag::Slash => TokKind::Slash,
            Tag::Percent => TokKind::Percent,
            Tag::Assign => TokKind::Assign,
            Tag::EqEq => TokKind::EqEq,
            Tag::NotEq => TokKind::NotEq,
            Tag::Lt => TokKind::Lt,
            Tag::Gt => TokKind::Gt,
            Tag::Le => TokKind::Le,
            Tag::Ge => TokKind::Ge,
            Tag::And => TokKind::And,
            Tag::Or => TokKind::Or,
            Tag::Not => TokKind::Not,
            Tag::LParen => TokKind::LParen,
            Tag::RParen => TokKind::RParen,
            Tag::LBracket => TokKind::LBracket,
            Tag::RBracket => TokKind::RBracket,
            Tag::LBrace => TokKind::LBrace,
            Tag::RBrace => TokKind::RBrace,
            Tag::Colon => TokKind::Colon,
            Tag::Comma => TokKind::Comma,
            Tag::Dot => TokKind::Dot,
            Tag::DotDot => TokKind::DotDot,
            _ => TokKind::Semicolon,
        }
    }
}

#[derive(Debug, Clone, PartialEq)]
pub struct Token {
    pub kind: TokKind,
    pub line: usize,
}

/// A token as the specification sees it: kind, text and line.
#[verifier::ext_equal]
pub struct TokV {
    pub tag: Tag,
    pub text: Seq<char>,
    pub line: int,
}

impl Token {
    pub open spec fn spec_view(&self) -> TokV {
        TokV { tag: self.kind.spec_tag(), text: self.kind.spec_text(), line: self.line as int }
    }
}

pub open spec fn toks_view(ts: Seq<Token>) -> Seq<TokV> {
    Seq::new(ts.len(), |i: int| ts[i].spec_view())
}

pub open spec fn tv(tag: Tag, line: int) -> TokV {
    TokV { tag, text: Seq::empty(), line }
}

/// The lexer's state: position, current line, depth of open brackets, the
/// stack of indentation widths, whether a logical line starts here, and the
/// tokens emitted so far.
#[verifier::ext_equal]
pub struct LexSt {
    pub pos: int,
    pub line: int,
    pub depth: int,
    pub stack: Seq<int>,
    pub at_start: bool,
    pub toks: Seq<TokV>,
}

pub enum Step {
    Cont(LexSt),
    Stop(LexSt),
    Fail(int, Seq<char>),
}

pub open spec fn init_state() -> LexSt {
    LexSt { pos: 0, line: 1, depth: 0, stack: seq![0int], at_start: true, toks: Seq::empty() }
}

/// Width of the indentation that starts at `i` (a space counts 1, a tab 4),
/// and where it ends.
pub open spec fn scan_indent(cs: Seq<char>, i: int, acc: int) -> (int, int)
    decreases cs.len() - i,
{
    if 0 <= i < cs.len() && cs[i] == ' ' {
        scan_indent(cs, i + 1, acc + 1)
    } else if 0 <= i < cs.len() && cs[i] == '\t' {
        scan_indent(cs, i + 1, acc + 4)
    } else {
        (acc, i)
    }
}

/// The position of the first line break at or after `i`, or the end.
pub open spec fn line_end(cs: Seq<char>, i: int) -> int
    decreases cs.len() - i,
{
    if 0 <= i < cs.len() && cs[i] != '\n' {
        line_end(cs, i + 1)
    } else {
        i
    }
}

pub open spec fn is_digit(c: char) -> bool {
    '0' <= c && c <= '9'
}

pub open spec fn digits_end(cs: Seq<char>, i: int) -> int
    decreases cs.len() - i,
{
    if 0 <= i < cs.len() && is_digit(cs[i]) {
        digits_end(cs, i + 1)
    } else {
        i
    }
}

pub open spec fn ident_start(c: char) -> bool {
    char_alphabetic(c) || c == '_'
}

pub open spec fn ident_continue(c: char) -> bool {
    char_alphanumeric(c) || c == '_'
}

/// Whether an identifier may start with `c`: a letter or `_`.
pub fn is_ident_start(c: char) -> (r: bool)
    ensures
        r == ident_start(c),
        r ==> ident_continue(c),
{
    is_alphabetic(c) || c == '_'
}

/// Whether an identifier may go on with `c`: a letter, a digit or `_`.
pub fn is_ident_continue(c: char) -> (r: bool)
    ensures
        r == ident_continue(c),
{
    is_alphanumeric(c) || c == '_'
}

pub open spec fn ident_end(cs: Seq<char>, i: int) -> int
    decreases cs.len() - i,
{
    if 0 <= i < cs.len() && ident_continue(cs[i]) {
        ident_end(cs, i + 1)
    } else {
        i
    }
}

/// Where a number literal that starts at `i` ends: digits, then a '.' and
/// more digits unless the '.' begins a `..`.
pub open spec fn number_end(cs: Seq<char>, i: int) -> int {
    let e = digits_end(cs, i);
    if e < cs.len() && cs[e] == '.' && !(e + 1 < cs.len() && cs[e + 1] == '.') {
        digits_end(cs, e + 1)
    } else {
        e
    }
}

pub open spec fn escaped(c: char) -> char {
    if c == 'n' {
        '\n'
    } else if c == 't' {
        '\t'
    } else {
        c
    }
}

/// The value of a string literal whose body starts at `i` (after the opening
/// quote), and the position after the closing quote; `None` when the string
/// is not closed.
pub open spec fn scan_string(cs: Seq<char>, i: int, acc: Seq<char>) -> Option<(Seq<char>, int)>
    decreases cs.len() - i,
{
    if i < 0 || i >= cs.len() {
        None
    } else if cs[i] == '"' {
        Some((acc, i + 1))
    } else if cs[i] == '\\' {
        if i + 1 >= cs.len() {
            None
        } else {
            scan_string(cs, i + 2, acc.push(escaped(cs[i + 1])))
        }
    } else {
        scan_string(cs, i + 1, acc.push(cs[i]))
    }
}

/// The keyword spelled by a word, if it is one.
pub open spec fn keyword_tag(w: Seq<char>) -> Option<Tag> {
    if w == "if"@ {
        Some(Tag::If)
    } else if w == "else"@ {
        Some(Tag::Else)
    } else if w == "while"@ {
        Some(Tag::While)
    } else if w == "for"@ {
        Some(Tag::For)
    } else if w == "in"@ {
        Some(Tag::In)
    } else if w == "func"@ {
        Some(Tag::Func)
    } else if w == "invocar"@ {
        Some(Tag::Invocar)
    } else if w == "selecionar"@ {
        Some(Tag::Selecionar)
    } else if w == "and"@ || w == "e"@ {
        Some(Tag::And)
    } else if w == "or"@ || w == "ou"@ {
        Some(Tag::Or)
    } else if w == "not"@ || w == "nao"@ {
        Some(Tag::Not)
    } else if w == "true"@ || w == "verdadeiro"@ {
        Some(Tag::True)
    } else if w == "false"@ || w == "falso"@ {
        Some(Tag::False)
    } else {
        None
    }
}

/// The words that a keyword token is written with (English or Portuguese).
pub open spec fn keyword_words(t: Tag) -> Seq<Seq<char>> {
    match t {
        Tag::If => seq!["if"@],
        Tag::Else => seq!["else"@],
        Tag::While => seq!["while"@],
        Tag::For => seq!["for"@],
        Tag::In => seq!["in"@],
        Tag::Func => seq!["func"@],
        Tag::Invocar => seq!["invocar"@],
        Tag::Selecionar => seq!["selecionar"@],
        Tag::And => seq!["and"@, "e"@],
        Tag::Or => seq!["or"@, "ou"@],
        Tag::Not => seq!["not"@, "nao"@],
        Tag::True => seq!["true"@, "verdadeiro"@],
        Tag::False => seq!["false"@, "falso"@],
        _ => Seq::empty(),
    }
}

/// A word is read as a keyword only when it is one of that keyword's
/// words; any other word is a name.
pub proof fn lemma_keyword_is_its_word(w: Seq<char>, line: int)
    ensures
        keyword_tag(w) is Some ==> keyword_words(keyword_tag(w)->Some_0).contains(w),
        keyword_tag(w) is None ==> word_token(w, line) == (TokV { tag: Tag::Ident, text: w, line }),
{
    if keyword_tag(w) is Some {
        let ws = keyword_words(keyword_tag(w)->Some_0);
        if ws.len() == 1 {
            assert(ws[0] == w);
        } else if ws[0] == w {
        } else {
            assert(ws[1] == w);
        }
    }
}

pub open spec fn word_token(w: Seq<char>, line: int) -> TokV {
    match keyword_tag(w) {
        Some(t) => tv(t, line),
        None => TokV { tag: Tag::Ident, text: w, line },
    }
}

/// The operator that starts with `c` (followed by `next`, if any): its tag
/// and how many characters it takes; `None` for a character that starts no
/// token.
pub open spec fn operator(c: char, next: Option<char>) -> Option<(Tag, int)> {
    if c == '+' {
        Some((Tag::Plus, 1))
    } else if c == '-' {
        Some((Tag::Minus, 1))
    } else if c == '*' {
        Some((Tag::Star, 1))
    } else if c == '/' {
        Some((Tag::Slash, 1))
    } else if c == '%' {
        Some((Tag::Percent, 1))
    } else if c == '=' {
        if next == Some('=') { Some((Tag::EqEq, 2)) } else { Some((Tag::Assign, 1)) }
    } else if c == '!' {
        if next == Some('=') { Some((Tag::NotEq, 2)) } else { Some((Tag::Not, 1)) }
    } else if c == '<' {
        if next == Some('=') { Some((Tag::Le, 2)) } else { Some((Tag::Lt, 1)) }
    } else if c == '>' {
        if next == Some('=') { Some((Tag::Ge, 2)) } else { Some((Tag::Gt, 1)) }
    } else if c == '(' {
        Some((Tag::LParen, 1))
    } else if c == ')' {
        Some((Tag::RParen, 1))
    } else if c == '[' {
        Some((Tag::LBracket, 1))
    } else if c == ']' {
        Some((Tag::RBracket, 1))
    } else if c == '{' {
        Some((Tag::LBrace, 1))
    } else if c == '}' {
        Some((Tag::RBrace, 1))
    } else if c == ':' {
        Some((Tag::Colon, 1))
    } else if c == ',' {
        Some((Tag::Comma, 1))
    } else if c == ';' {
        Some((Tag::Semicolon, 1))
    } else if c == '.' {
        if next == Some('.') { Some((Tag::DotDot, 2)) } else { Some((Tag::Dot, 1)) }
    } else {
        None
    }
}

/// Bracket depth after a token: openers add one, closers take one away but
/// never below zero.
pub open spec fn depth_after(t: Tag, depth: int) -> int {
    if t == Tag::LParen || t == Tag::LBracket || t == Tag::LBrace {
        depth + 1
    } else if t == Tag::RParen || t == Tag::RBracket || t == Tag::RBrace {
        if depth - 1 > 0 { depth - 1 } else { 0 }
    } else {
        depth
    }
}

pub open spec fn char_at(cs: Seq<char>, i: int) -> Option<char> {
    if 0 <= i < cs.len() { Some(cs[i]) } else { None }
}

/// Pops the indentation stack while `indent` is below its top, emitting one
/// DEDENT per pop.
pub open spec fn dedent(stack: Seq<int>, indent: int, toks: Seq<TokV>, line: int) -> (Seq<int>, Seq<TokV>)
    decreases stack.len(),
{
    if stack.len() > 0 && indent < stack.last() {
        dedent(stack.drop_last(), indent, toks.push(tv(Tag::Dedent, line)), line)
    } else {
        (stack, toks)
    }
}

pub enum IndentOut {
    Blank(LexSt),
    Proceed(LexSt),
    Fail(int, Seq<char>),
}

/// The start of a logical line: skip a blank or comment-only line whole, or
/// measure the indentation and emit INDENT/DEDENT.
pub open spec fn indentation(cs: Seq<char>, st: LexSt) -> IndentOut {
    let (indent, i) = scan_indent(cs, st.pos, 0);
    if i >= cs.len() {
        IndentOut::Proceed(LexSt { pos: i, ..st })
    } else if cs[i] == '\n' {
        IndentOut::Blank(LexSt { pos: i + 1, line: st.line + 1, ..st })
    } else if cs[i] == '#' || (cs[i] == '/' && char_at(cs, i + 1) == Some('/')) {
        IndentOut::Blank(LexSt { pos: line_end(cs, i), ..st })
    } else {
        let st2 = LexSt { pos: i, at_start: false, ..st };
        let current = st.stack.last();
        if indent > current {
            IndentOut::Proceed(LexSt {
                stack: st.stack.push(indent),
                toks: st.toks.push(tv(Tag::Indent, st.line)),
                ..st2
            })
        } else if indent < current {
            let (stack, toks) = dedent(st.stack, indent, st.toks, st.line);
            if stack.len() == 0 || stack.last() != indent {
                IndentOut::Fail(st.line, "indentacao inconsistente"@)
            } else {
                IndentOut::Proceed(LexSt { stack, toks, ..st2 })
            }
        } else {
            IndentOut::Proceed(st2)
        }
    }
}

/// One token-level step from `st`, which is not at the start of a logical
/// line to be measured.
pub open spec fn token_step(cs: Seq<char>, st: LexSt) -> Step {
    let pos = st.pos;
    if pos < 0 || pos >= cs.len() {
        Step::Stop(st)
    } else {
        let c = cs[pos];
        if c == '\n' {
            if st.depth == 0 {
                Step::Cont(LexSt {
                    pos: pos + 1,
                    line: st.line + 1,
                    at_start: true,
                    toks: st.toks.push(tv(Tag::Newline, st.line)),
                    ..st
                })
            } else {
                Step::Cont(LexSt { pos: pos + 1, line: st.line + 1, ..st })
            }
        } else if c == ' ' || c == '\t' || c == '\r' {
            Step::Cont(LexSt { pos: pos + 1, ..st })
        } else if c == '#' || (c == '/' && char_at(cs, pos + 1) == Some('/')) {
            Step::Cont(LexSt { pos: line_end(cs, pos), ..st })
        } else if is_digit(c) {
            let e = number_end(cs, pos);
            Step::Cont(LexSt {
                pos: e,
                toks: st.toks.push(TokV { tag: Tag::Number, text: cs.subrange(pos, e), line: st.line }),
                ..st
            })
        } else if ident_start(c) {
            let e = ident_end(cs, pos);
            Step::Cont(LexSt { pos: e, toks: st.toks.push(word_token(cs.subrange(pos, e), st.line)), ..st })
        } else if c == '"' {
            match scan_string(cs, pos + 1, Seq::empty()) {
                None => Step::Fail(st.line, "string nao fechada"@),
                Some((v, e)) => Step::Cont(LexSt {
                    pos: e,
                    toks: st.toks.push(TokV { tag: Tag::Str, text: v, line: st.line }),
                    ..st
                }),
            }
        } else {
            match operator(c, char_at(cs, pos + 1)) {
                None => Step::Fail(st.line, "caractere inesperado: '"@ + seq![c] + "'"@),
                Some((t, n)) => Step::Cont(LexSt {
                    pos: pos + n,
                    depth: depth_after(t, st.depth),
                    toks: st.toks.push(tv(t, st.line)),
                    ..st
                }),
            }
        }
    }
}

/// One step of the main loop.
pub open spec fn lex_step(cs: Seq<char>, st: LexSt) -> Step {
    if st.at_start && st.depth == 0 {
        match indentation(cs, st) {
            IndentOut::Blank(s) => Step::Cont(s),
            IndentOut::Proceed(s) => token_step(cs, s),
            IndentOut::Fail(l, m) => Step::Fail(l, m),
        }
    } else {
        token_step(cs, st)
    }
}

/// The closing of the token stream at the end of the text: a NEWLINE ends
/// the last logical line and the open indentation blocks are closed, both
/// only when no bracket is left open; then EOF.
pub open spec fn finish(st: LexSt) -> Seq<TokV> {
    let t1 = if !st.at_start && st.depth == 0 { st.toks.push(tv(Tag::Newline, st.line)) } else { st.toks };
    let t2 = if st.depth == 0 { close_blocks(t1, st.stack.len() - 1, st.line) } else { t1 };
    t2.push(tv(Tag::Eof, st.line))
}

/// `n` DEDENT tokens appended to `toks`.
pub open spec fn close_blocks(toks: Seq<TokV>, n: int, line: int) -> Seq<TokV>
    decreases n,
{
    if n <= 0 {
        toks
    } else {
        close_blocks(toks.push(tv(Tag::Dedent, line)), n - 1, line)
    }
}

pub enum LexEnd {
    Done(LexSt),
    Failed(int, Seq<char>),
}

/// The run of the main loop from `st` until the text is consumed or an
/// error stops it. A step that would not move forward ends the run with
/// line -1; `tokenize` shows that this never happens.
pub open spec fn lex_from(cs: Seq<char>, st: LexSt) -> LexEnd
    decreases cs.len() - st.pos,
{
    match lex_step(cs, st) {
        Step::Cont(s2) => {
            if st.pos < s2.pos <= cs.len() {
                lex_from(cs, s2)
            } else {
                LexEnd::Failed(-1, Seq::empty())
            }
        },
        Step::Stop(s2) => LexEnd::Done(s2),
        Step::Fail(l, m) => LexEnd::Failed(l, m),
    }
}

/// The tokens of a text, or the line and message of the error that stops
/// the lexer.
pub open spec fn lex(cs: Seq<char>) -> Result<Seq<TokV>, (int, Seq<char>)> {
    match lex_from(cs, init_state()) {
        LexEnd::Done(st) => Ok(finish(st)),
        LexEnd::Failed(l, m) => Err((l, m)),
    }
}

} // verus!

verus! {

/// The view of a token stream grows by one token's view when a token is pushed.
pub proof fn lemma_toks_view_push(ts: Seq<Token>, t: Token)
    ensures
        toks_view(ts.push(t)) == toks_view(ts).push(t.spec_view()),
{
    assert(toks_view(ts.push(t)) =~= toks_view(ts).push(t.spec_view()));
}

pub open spec fn stack_view(s: Seq<usize>) -> Seq<int> {
    Seq::new(s.len(), |i: int| s[i] as int)
}

struct Lexer {
    chars: Vec<char>,
    pos: usize,
    line: usize,
    /// combined depth of (), [] and {}
    depth: usize,
    stack: Vec<usize>,
    at_line_start: bool,
    tokens: Vec<Token>,
}

impl Lexer {
    spec fn st(&self) -> LexSt {
        LexSt {
            pos: self.pos as int,
            line: self.line as int,
            depth: self.depth as int,
            stack: stack_view(self.stack@),
            at_start: self.at_line_start,
            toks: toks_view(self.tokens@),
        }
    }

    spec fn wf(&self) -> bool {
        &&& self.chars@.len() * 4 <= usize::MAX
        &&& self.pos <= self.chars@.len()
        &&& 1 <= self.line <= self.pos + 1
        &&& self.depth <= self.pos
        &&& self.stack@.len() >= 1
        &&& self.stack@[0] == 0
        &&& forall|k: int| 0 <= k < self.stack@.len() ==> #[trigger] self.stack@[k] <= 4 * self.chars@.len()
    }

    fn push_tok(&mut self, kind: TokKind)
        ensures
            final(self).tokens@ == old(self).tokens@.push(Token { kind, line: old(self).line }),
            toks_view(final(self).tokens@) == toks_view(old(self).tokens@).push(
                TokV { tag: kind.spec_tag(), text: kind.spec_text(), line: old(self).line as int },
            ),
            final(self).chars == old(self).chars,
            final(self).pos == old(self).pos,
            final(self).line == old(self).line,
            final(self).depth == old(self).depth,
            final(self).stack == old(self).stack,
            final(self).at_line_start == old(self).at_line_start,
    {
        let line = self.line;
        let t = Token { kind, line };
        proof {
            lemma_toks_view_push(self.tokens@, t);
        }
        self.tokens.push(t);
    }

    fn line_end_from(&self, i: usize) -> (r: usize)
        requires
            i <= self.chars@.len(),
        ensures
            r == line_end(self.chars@, i as int),
            i <= r <= self.chars@.len(),
    {
        let n = self.chars.len();
        let mut j = i;
        while j < n && self.chars[j] != '\n'
            invariant
                n == self.chars@.len(),
                i <= j <= n,
                line_end(self.chars@, i as int) == line_end(self.chars@, j as int),
            decreases n - j,
        {
            j += 1;
        }
        j
    }

    fn digits_end_from(&self, i: usize) -> (r: usize)
        requires
            i <= self.chars@.len(),
        ensures
            r == digits_end(self.chars@, i as int),
            i <= r <= self.chars@.len(),
    {
        let n = self.chars.len();
        let mut j = i;
        while j < n && '0' <= self.chars[j] && self.chars[j] <= '9'
            invariant
                n == self.chars@.len(),
                i <= j <= n,
                digits_end(self.chars@, i as int) == digits_end(self.chars@, j as int),
            decreases n - j,
        {
            j += 1;
        }
        j
    }

    fn ident_end_from(&self, i: usize) -> (r: usize)
        requires
            i <= self.chars@.len(),
        ensures
            r == ident_end(self.chars@, i as int),
            i <= r <= self.chars@.len(),
    {
        let n = self.chars.len();
        let mut j = i;
        while j < n && is_ident_continue(self.chars[j])
            invariant
                n == self.chars@.len(),
                i <= j <= n,
                ident_end(self.chars@, i as int) == ident_end(self.chars@, j as int),
            decreases n - j,
        {
            j += 1;
        }
        j
    }

    fn text_between(&self, a: usize, b: usize) -> (r: Vec<char>)
        requires
            a <= b <= self.chars@.len(),
        ensures
            r@ == self.chars@.subrange(a as int, b as int),
    {
        let mut v: Vec<char> = Vec::new();
        let mut j = a;
        while j < b
            invariant
                a <= j <= b,
                b <= self.chars@.len(),
                v@ == self.chars@.subrange(a as int, j as int),
            decreases b - j,
        {
            v.push(self.chars[j]);
            j += 1;
            assert(v@ =~= self.chars@.subrange(a as int, j as int));
        }
        v
    }

    /// Pops the indentation stack while `indent` is below its top.
    fn dedent_to(&mut self, indent: usize)
        requires
            old(self).stack@.len() >= 1,
        ensures
            (stack_view(final(self).stack@), toks_view(final(self).tokens@)) == dedent(
                stack_view(old(self).stack@),
                indent as int,
                toks_view(old(self).tokens@),
                old(self).line as int,
            ),
            final(self).stack@.len() <= old(self).stack@.len(),
            forall|k: int| 0 <= k < final(self).stack@.len() ==> final(self).stack@[k] == old(self).stack@[k],
            final(self).chars == old(self).chars,
            final(self).pos == old(self).pos,
            final(self).line == old(self).line,
            final(self).depth == old(self).depth,
            final(self).at_line_start == old(self).at_line_start,
    {
        while self.stack.len() > 0 && indent < self.stack[self.stack.len() - 1]
            invariant
                self.chars == old(self).chars,
                self.pos == old(self).pos,
                self.line == old(self).line,
                self.depth == old(self).depth,
                self.at_line_start == old(self).at_line_start,
                self.stack@.len() <= old(self).stack@.len(),
                forall|k: int| 0 <= k < self.stack@.len() ==> self.stack@[k] == old(self).stack@[k],
                dedent(stack_view(self.stack@), indent as int, toks_view(self.tokens@), self.line as int)
                    == dedent(
                    stack_view(old(self).stack@),
                    indent as int,
                    toks_view(old(self).tokens@),
                    old(self).line as int,
                ),
            decreases self.stack@.len(),
        {
            let ghost s0 = self.stack@;
            self.stack.pop();
            assert(stack_view(self.stack@) =~= stack_view(s0).drop_last());
            self.push_tok(TokKind::Dedent);
        }
    }

    /// Measures the indentation of a new logical line; `Ok(true)` when the
    /// line was blank or a comment and has been consumed whole.
    fn consume_indentation(&mut self) -> (r: Result<bool, ScriptError>)
        requires
            old(self).wf(),
        ensures
            match indentation(old(self).chars@, old(self).st()) {
                IndentOut::Blank(s) => r == Ok::<bool, ScriptError>(true) && final(self).st() == s && final(self).wf()
                    && final(self).pos > old(self).pos,
                IndentOut::Proceed(s) => r == Ok::<bool, ScriptError>(false) && final(self).st() == s && final(self).wf()
                    && final(self).pos >= old(self).pos,
                IndentOut::Fail(l, m) => r matches Err(e) && e.line == l && e.message@ == m,
            },
            final(self).chars == old(self).chars,
    {
        let n = self.chars.len();
        let mut indent: usize = 0;
        let mut i = self.pos;
        while i < n && (self.chars[i] == ' ' || self.chars[i] == '\t')
            invariant
                n == self.chars@.len(),
                n * 4 <= usize::MAX,
                old(self).pos <= i <= n,
                self.pos == old(self).pos,
                indent <= 4 * (i - old(self).pos),
                scan_indent(self.chars@, self.pos as int, 0) == scan_indent(self.chars@, i as int, indent as int),
            decreases n - i,
        {
            if self.chars[i] == ' ' {
                indent += 1;
            } else {
                indent += 4;
            }
            i += 1;
        }
        if i >= n {
            self.pos = i;
            return Ok(false);
        }
        if self.chars[i] == '\n' {
            self.pos = i + 1;
            self.line += 1;
            return Ok(true);
        }
        if self.chars[i] == '#' || (self.chars[i] == '/' && i + 1 < n && self.chars[i + 1] == '/') {
            assert(line_end(self.chars@, i as int) == line_end(self.chars@, i + 1));
            self.pos = self.line_end_from(i + 1);
            return Ok(true);
        }
        self.pos = i;
        self.at_line_start = false;
        let current = self.stack[self.stack.len() - 1];
        if indent > current {
            self.stack.push(indent);
            assert(stack_view(self.stack@) =~= stack_view(old(self).stack@).push(indent as int));
            self.push_tok(TokKind::Indent);
        } else if indent < current {
            self.dedent_to(indent);
            if self.stack.len() == 0 || self.stack[self.stack.len() - 1] != indent {
                let mut msg = String::new();
                push_str(&mut msg, "indentacao inconsistente");
                return Err(ScriptError::new(self.line, msg));
            }
        }
        Ok(false)
    }
}

} // verus!

verus! {

/// The keyword spelled by `w`, if it is one.
fn keyword(w: &[char]) -> (r: Option<Tag>)
    ensures
        r == keyword_tag(w@),
{
    if chars_eq_str(w, "if") {
        Some(Tag::If)
    } else if chars_eq_str(w, "else") {
        Some(Tag::Else)
    } else if chars_eq_str(w, "while") {
        Some(Tag::While)
    } else if chars_eq_str(w, "for") {
        Some(Tag::For)
    } else if chars_eq_str(w, "in") {
        Some(Tag::In)
    } else if chars_eq_str(w, "func") {
        Some(Tag::Func)
    } else if chars_eq_str(w, "invocar") {
        Some(Tag::Invocar)
    } else if chars_eq_str(w, "selecionar") {
        Some(Tag::Selecionar)
    } else if chars_eq_str(w, "and") || chars_eq_str(w, "e") {
        Some(Tag::And)
    } else if chars_eq_str(w, "or") || chars_eq_str(w, "ou") {
        Some(Tag::Or)
    } else if chars_eq_str(w, "not") || chars_eq_str(w, "nao") {
        Some(Tag::Not)
    } else if chars_eq_str(w, "true") || chars_eq_str(w, "verdadeiro") {
        Some(Tag::True)
    } else if chars_eq_str(w, "false") || chars_eq_str(w, "falso") {
        Some(Tag::False)
    } else {
        None
    }
}

/// One operator token of the lexer, at a character `c` that starts no
/// number, name, string or comment: the token, how many characters it takes
/// (2 for `==`, `!=`, `<=`, `>=` and `..`, 1 otherwise), and the bracket
/// depth after it (one more after `(`, `[` or `{`, one less but never below
/// zero after `)`, `]` or `}`). Any other character is an error at `line`.
pub fn lex_operator(c: char, next: Option<char>, line: usize, depth: usize) -> (r: Result<(TokKind, usize, usize), ScriptError>)
    requires
        depth < usize::MAX,
    ensures
        match operator(c, next) {
            Some((t, n)) => r matches Ok((k, len, d)) && k.spec_tag() == t && k.spec_text() == Seq::<char>::empty()
                && len == n && d == depth_after(t, depth as int),
            None => r matches Err(e) && e.line == line && e.message@ == "caractere inesperado: '"@ + seq![c] + "'"@,
        },
        r matches Ok((k, len, d)) ==> (len == 2 <==> ((next == Some('=') && (c == '=' || c == '!' || c == '<' || c
            == '>')) || (c == '.' && next == Some('.')))),
        r is Ok <==> "+-*/%=!<>()[]{}:,;."@.contains(c),
        r matches Ok((k, len, d)) ==> tag_symbol(k.spec_tag()) == read_chars(c, next, len as int),
{
    proof {
        lemma_operator_spells_its_token(c, next, Tag::Plus);
    }
    proof {
        reveal_strlit("+-*/%=!<>()[]{}:,;.");
        let ops = "+-*/%=!<>()[]{}:,;."@;
        if operator(c, next) is Some {
            assert(ops.contains(c)) by {
                if c == '+' { assert(ops[0] == c); }
                else if c == '-' { assert(ops[1] == c); }
                else if c == '*' { assert(ops[2] == c); }
                else if c == '/' { assert(ops[3] == c); }
                else if c == '%' { assert(ops[4] == c); }
                else if c == '=' { assert(ops[5] == c); }
                else if c == '!' { assert(ops[6] == c); }
                else if c == '<' { assert(ops[7] == c); }
                else if c == '>' { assert(ops[8] == c); }
                else if c == '(' { assert(ops[9] == c); }
                else if c == ')' { assert(ops[10] == c); }
                else if c == '[' { assert(ops[11] == c); }
                else if c == ']' { assert(ops[12] == c); }
                else if c == '{' { assert(ops[13] == c); }
                else if c == '}' { assert(ops[14] == c); }
                else if c == ':' { assert(ops[15] == c); }
                else if c == ',' { assert(ops[16] == c); }
                else if c == ';' { assert(ops[17] == c); }
                else { assert(ops[18] == c); }
            }
        }
    }
    match operator_exec(c, next) {
        None => {
            let mut msg = String::new();
            push_str(&mut msg, "caractere inesperado: '");
            push_char(&mut msg, c);
            push_str(&mut msg, "'");
            Err(ScriptError::new(line, msg))
        },
        Some((t, len)) => {
            let kind = TokKind::from_tag(t);
            let d = if t == Tag::LParen || t == Tag::LBracket || t == Tag::LBrace {
                depth + 1
            } else if t == Tag::RParen || t == Tag::RBracket || t == Tag::RBrace {
                if depth > 0 {
                    depth - 1
                } else {
                    0
                }
            } else {
                depth
            };
            Ok((kind, len, d))
        },
    }
}

/// How a symbol token is written in a script; empty for the tokens that are
/// not written as a symbol (names, numbers, strings, keywords, layout).
pub open spec fn tag_symbol(t: Tag) -> Seq<char> {
    match t {
        Tag::Plus => seq!['+'],
        Tag::Minus => seq!['-'],
        Tag::Star => seq!['*'],
        Tag::Slash => seq!['/'],
        Tag::Percent => seq!['%'],
        Tag::Assign => seq!['='],
        Tag::EqEq => seq!['=', '='],
        Tag::NotEq => seq!['!', '='],
        Tag::Lt => seq!['<'],
        Tag::Gt => seq!['>'],
        Tag::Le => seq!['<', '='],
        Tag::Ge => seq!['>', '='],
        Tag::Not => seq!['!'],
        Tag::LParen => seq!['('],
        Tag::RParen => seq![')'],
        Tag::LBracket => seq!['['],
        Tag::RBracket => seq![']'],
        Tag::LBrace => seq!['{'],
        Tag::RBrace => seq!['}'],
        Tag::Colon => seq![':'],
        Tag::Comma => seq![','],
        Tag::Dot => seq!['.'],
        Tag::DotDot => seq!['.', '.'],
        Tag::Semicolon => seq![';'],
        _ => Seq::empty(),
    }
}

/// The characters an operator step reads: `c`, and `next` too when it
/// takes two.
pub open spec fn read_chars(c: char, next: Option<char>, n: int) -> Seq<char> {
    if n == 2 && next is Some {
        seq![c, next->Some_0]
    } else {
        seq![c]
    }
}

/// An operator token is the symbol that was written: the characters it
/// reads spell its tag (so `<=` is `Le` and `>=` is `Ge`, `..` is `DotDot`),
/// and the longest symbol wins: when `c` and `next` together spell a
/// symbol, that two-character token is the one produced.
pub proof fn lemma_operator_spells_its_token(c: char, next: Option<char>, t2: Tag)
    ensures
        operator(c, next) is Some ==> {
            let (t, n) = operator(c, next)->Some_0;
            &&& 1 <= n <= 2
            &&& (n == 2 ==> next is Some)
            &&& tag_symbol(t) == read_chars(c, next, n)
        },
        next is Some && tag_symbol(t2) == seq![c, next->Some_0] ==> operator(c, next) == Some((t2, 2int)),
        tag_symbol(t2) == seq![c] && !(next == Some('=') && (c == '=' || c == '!' || c == '<' || c == '>')) && !(
        c == '.' && next == Some('.')) ==> operator(c, next) == Some((t2, 1int)),
{
    if next is Some && tag_symbol(t2) == seq![c, next->Some_0] {
        let s = tag_symbol(t2);
        assert(s.len() == 2);
        assert(s[0] == c && s[1] == next->Some_0);
        match t2 {
            Tag::EqEq => { assert(seq!['=', '='][0] == '='); },
            _ => {},
        }
    }
    if tag_symbol(t2) == seq![c] {
        let s = tag_symbol(t2);
        assert(s.len() == 1);
        assert(s[0] == c);
    }
}

fn operator_exec(c: char, next: Option<char>) -> (r: Option<(Tag, usize)>)
    ensures
        match operator(c, next) {
            Some((t, n)) => r == Some((t, n as usize)) && 1 <= n <= 2,
            None => r is None,
        },
{
    let eq_next = next == Some('=');
    if c == '+' {
        Some((Tag::Plus, 1))
    } else if c == '-' {
        Some((Tag::Minus, 1))
    } else if c == '*' {
        Some((Tag::Star, 1))
    } else if c == '/' {
        Some((Tag::Slash, 1))
    } else if c == '%' {
        Some((Tag::Percent, 1))
    } else if c == '=' {
        if eq_next { Some((Tag::EqEq, 2)) } else { Some((Tag::Assign, 1)) }
    } else if c == '!' {
        if eq_next { Some((Tag::NotEq, 2)) } else { Some((Tag::Not, 1)) }
    } else if c == '<' {
        if eq_next { Some((Tag::Le, 2)) } else { Some((Tag::Lt, 1)) }
    } else if c == '>' {
        if eq_next { Some((Tag::Ge, 2)) } else { Some((Tag::Gt, 1)) }
    } else if c == '(' {
        Some((Tag::LParen, 1))
    } else if c == ')' {
        Some((Tag::RParen, 1))
    } else if c == '[' {
        Some((Tag::LBracket, 1))
    } else if c == ']' {
        Some((Tag::RBracket, 1))
    } else if c == '{' {
        Some((Tag::LBrace, 1))
    } else if c == '}' {
        Some((Tag::RBrace, 1))
    } else if c == ':' {
        Some((Tag::Colon, 1))
    } else if c == ',' {
        Some((Tag::Comma, 1))
    } else if c == ';' {
        Some((Tag::Semicolon, 1))
    } else if c == '.' {
        if next == Some('.') { Some((Tag::DotDot, 2)) } else { Some((Tag::Dot, 1)) }
    } else {
        None
    }
}

impl Lexer {
    fn char_at_exec(&self, i: usize) -> (r: Option<char>)
        ensures
            r == char_at(self.chars@, i as int),
    {
        if i < self.chars.len() { Some(self.chars[i]) } else { None }
    }

    /// One token-level step. `Ok(true)` to go on, `Ok(false)` at the end of
    /// the text.
    fn token_step(&mut self) -> (r: Result<bool, ScriptError>)
        requires
            old(self).wf(),
        ensures
            final(self).chars == old(self).chars,
            match token_step(old(self).chars@, old(self).st()) {
                Step::Cont(s) => r == Ok::<bool, ScriptError>(true) && final(self).st() == s && final(self).wf()
                    && final(self).pos > old(self).pos,
                Step::Stop(s) => r == Ok::<bool, ScriptError>(false) && final(self).st() == s && final(self).wf(),
                Step::Fail(l, m) => r matches Err(e) && e.line == l && e.message@ == m,
            },
    {
        let n = self.chars.len();
        let pos = self.pos;
        if pos >= n {
            return Ok(false);
        }
        let c = self.chars[pos];
        if c == '\n' {
            self.pos = pos + 1;
            if self.depth == 0 {
                self.push_tok(TokKind::Newline);
                self.at_line_start = true;
            }
            self.line += 1;
            return Ok(true);
        }
        if c == ' ' || c == '\t' || c == '\r' {
            self.pos = pos + 1;
            return Ok(true);
        }
        if c == '#' || (c == '/' && self.char_at_exec(pos + 1) == Some('/')) {
            assert(line_end(self.chars@, pos as int) == line_end(self.chars@, pos + 1));
            self.pos = self.line_end_from(pos + 1);
            return Ok(true);
        }
        if '0' <= c && c <= '9' {
            assert(digits_end(self.chars@, pos as int) == digits_end(self.chars@, pos + 1));
            let e1 = self.digits_end_from(pos + 1);
            let e = if e1 < n && self.chars[e1] == '.' && !(e1 + 1 < n && self.chars[e1 + 1] == '.') {
                self.digits_end_from(e1 + 1)
            } else {
                e1
            };
            let text = self.text_between(pos, e);
            let s = string_from(text.as_slice());
            self.push_tok(TokKind::Number(s));
            self.pos = e;
            return Ok(true);
        }
        if is_ident_start(c) {
            assert(ident_end(self.chars@, pos as int) == ident_end(self.chars@, pos + 1));
            let e = self.ident_end_from(pos + 1);
            let word = self.text_between(pos, e);
            let kind = match keyword(word.as_slice()) {
                Some(t) => TokKind::from_tag(t),
                None => TokKind::Ident(string_from(word.as_slice())),
            };
            self.push_tok(kind);
            self.pos = e;
            return Ok(true);
        }
        if c == '"' {
            let line = self.line;
            let mut value = String::new();
            let mut i = pos + 1;
            loop
                invariant_except_break
                    scan_string(self.chars@, pos + 1, Seq::empty()) == scan_string(self.chars@, i as int, value@),
                invariant
                    n == self.chars@.len(),
                    pos < i,
                    pos < n,
                    pos == old(self).pos,
                    old(self).chars@[pos as int] == '"',
                    !char_alphabetic(old(self).chars@[pos as int]),
                    self.chars == old(self).chars,
                    self.pos == old(self).pos,
                    self.line == line,
                    self.line == old(self).line,
                ensures
                    scan_string(self.chars@, pos + 1, Seq::empty()) == Some((value@, i as int)),
                    i <= n,
                decreases n + 2 - i,
            {
                if i >= n {
                    assert(scan_string(self.chars@, i as int, value@) is None);
                    let mut msg = String::new();
                    push_str(&mut msg, "string nao fechada");
                    assert(msg@ =~= "string nao fechada"@);
                    return Err(ScriptError::new(line, msg));
                }
                let ch = self.chars[i];
                if ch == '"' {
                    i += 1;
                    break;
                } else if ch == '\\' {
                    if i + 1 >= n {
                        assert(scan_string(self.chars@, i as int, value@) is None);
                        let mut msg = String::new();
                        push_str(&mut msg, "string nao fechada");
                        assert(msg@ =~= "string nao fechada"@);
                        return Err(ScriptError::new(line, msg));
                    }
                    let e = self.chars[i + 1];
                    let esc = if e == 'n' { '\n' } else if e == 't' { '\t' } else { e };
                    push_char(&mut value, esc);
                    i += 2;
                } else {
                    push_char(&mut value, ch);
                    i += 1;
                }
            }
            self.push_tok(TokKind::Str(value));
            self.pos = i;
            return Ok(true);
        }
        let next = self.char_at_exec(pos + 1);
        match lex_operator(c, next, self.line, self.depth) {
            Err(e) => Err(e),
            Ok((kind, len, depth)) => {
                self.push_tok(kind);
                self.depth = depth;
                self.pos = pos + len;
                Ok(true)
            },
        }
    }
}

} // verus!

verus! {

impl Lexer {
    /// The closing tokens at the end of the text.
    fn finish_exec(&mut self)
        requires
            old(self).wf(),
        ensures
            toks_view(final(self).tokens@) == finish(old(self).st()),
    {
        if !self.at_line_start && self.depth == 0 {
            self.push_tok(TokKind::Newline);
        }
        let ghost t1 = toks_view(self.tokens@);
        if self.depth == 0 {
            while self.stack.len() > 1
                invariant
                    self.depth == 0,
                    self.line == old(self).line,
                    self.stack@.len() >= 1,
                    close_blocks(toks_view(self.tokens@), self.stack@.len() - 1, self.line as int)
                        == close_blocks(t1, old(self).stack@.len() - 1, old(self).line as int),
                decreases self.stack@.len(),
            {
                self.stack.pop();
                self.push_tok(TokKind::Dedent);
            }
            assert(close_blocks(toks_view(self.tokens@), self.stack@.len() - 1, self.line as int)
                == toks_view(self.tokens@));
        }
        self.push_tok(TokKind::Eof);
    }

    fn run(&mut self) -> (r: Result<Vec<Token>, ScriptError>)
        requires
            old(self).wf(),
        ensures
            match lex_from(old(self).chars@, old(self).st()) {
                LexEnd::Done(st) => r matches Ok(ts) && toks_view(ts@) == finish(st),
                LexEnd::Failed(l, m) => r matches Err(e) && e.line == l && e.message@ == m,
            },
    {
        let ghost cs = self.chars@;
        loop
            invariant_except_break
                lex_from(cs, old(self).st()) == lex_from(cs, self.st()),
            invariant
                self.wf(),
                self.chars@ == cs,
                cs == old(self).chars@,
            ensures
                lex_from(cs, old(self).st()) == LexEnd::Done(self.st()),
            decreases cs.len() - self.pos,
        {
            let ghost before = self.st();
            let mut go_on = true;
            let mut measured = false;
            if self.at_line_start && self.depth == 0 {
                match self.consume_indentation() {
                    Err(e) => {
                        assert(lex_from(cs, before) == LexEnd::Failed(e.line as int, e.message@));
                        return Err(e);
                    },
                    Ok(true) => {
                        measured = true;
                    },
                    Ok(false) => {},
                }
            }
            if !measured {
                match self.token_step() {
                    Err(e) => {
                        assert(lex_step(cs, before) is Fail);
                        assert(lex_from(cs, before) == LexEnd::Failed(e.line as int, e.message@));
                        return Err(e);
                    },
                    Ok(b) => {
                        go_on = b;
                    },
                }
            }
            if !go_on {
                assert(lex_step(cs, before) == Step::Stop(self.st()));
                assert(lex_from(cs, before) == LexEnd::Done(self.st()));
                break;
            }
            assert(lex_step(cs, before) == Step::Cont(self.st()));
        }
        let ghost end = self.st();
        assert(lex_from(cs, old(self).st()) == LexEnd::Done(end));
        self.finish_exec();
        let mut out = Vec::new();
        std::mem::swap(&mut out, &mut self.tokens);
        Ok(out)
    }
}

/// The tokens of `src`, exactly as `lex` describes them. Every step of the
/// lexer moves forward: the run never stalls (an error has a real line,
/// never the -1 that `lex_from` gives a step that would not advance).
pub fn tokenize(src: &str) -> (r: Result<Vec<Token>, ScriptError>)
    requires
        src@.len() * 4 <= usize::MAX,
    ensures
        lex(src@) is Err ==> lex(src@)->Err_0.0 >= 0,
        match lex(src@) {
            Ok(ts) => r matches Ok(v) && toks_view(v@) == ts,
            Err((l, m)) => r matches Err(e) && e.line == l && e.message@ == m,
        },
{
    let chars = chars_of(src);
    let mut stack = Vec::new();
    stack.push(0usize);
    let mut lx = Lexer { chars, pos: 0, line: 1, depth: 0, stack, at_line_start: true, tokens: Vec::new() };
    assert(lx.st() == init_state()) by {
        assert(stack_view(lx.stack@) =~= seq![0int]);
        assert(toks_view(lx.tokens@) =~= Seq::<TokV>::empty());
    }
    lx.run()
}

} // verus!

verus! {

/// How many tokens of `ts` have the tag `t`.
pub open spec fn count_tag(ts: Seq<TokV>, t: Tag) -> int
    decreases ts.len(),
{
    if ts.len() == 0 {
        0
    } else {
        count_tag(ts.drop_last(), t) + if ts.last().tag == t { 1int } else { 0int }
    }
}

/// How many indentation blocks are open after `ts`: INDENTs minus DEDENTs.
pub open spec fn nesting(ts: Seq<TokV>) -> int {
    count_tag(ts, Tag::Indent) - count_tag(ts, Tag::Dedent)
}

/// No prefix of `ts` closes more blocks than it opened.
pub open spec fn never_overclosed(ts: Seq<TokV>) -> bool {
    forall|k: int| 0 <= k <= ts.len() ==> nesting(#[trigger] ts.take(k)) >= 0
}

pub open spec fn no_eof(ts: Seq<TokV>) -> bool {
    forall|k: int| 0 <= k < ts.len() ==> (#[trigger] ts[k]).tag != Tag::Eof
}

/// What every state of the lexer keeps: the indentation stack has the zero
/// width at its bottom, and the open blocks of the tokens so far are the
/// entries of the stack above it.
pub open spec fn state_ok(cs: Seq<char>, st: LexSt) -> bool {
    &&& 0 <= st.pos <= cs.len()
    &&& st.depth >= 0
    &&& st.stack.len() >= 1
    &&& st.stack[0] == 0
    &&& forall|k: int| 0 <= k < st.stack.len() ==> #[trigger] st.stack[k] >= 0
    &&& nesting(st.toks) == st.stack.len() - 1
    &&& never_overclosed(st.toks)
    &&& no_eof(st.toks)
}

proof fn lemma_push_tok(ts: Seq<TokV>, v: TokV)
    ensures
        count_tag(ts.push(v), Tag::Indent) == count_tag(ts, Tag::Indent) + if v.tag == Tag::Indent { 1int } else { 0int },
        count_tag(ts.push(v), Tag::Dedent) == count_tag(ts, Tag::Dedent) + if v.tag == Tag::Dedent { 1int } else { 0int },
        count_tag(ts.push(v), Tag::Eof) == count_tag(ts, Tag::Eof) + if v.tag == Tag::Eof { 1int } else { 0int },
        forall|k: int| 0 <= k <= ts.len() ==> #[trigger] ts.push(v).take(k) == ts.take(k),
        ts.push(v).take(ts.len() + 1int) == ts.push(v),
{
    assert(ts.push(v).drop_last() =~= ts);
    assert forall|k: int| 0 <= k <= ts.len() implies #[trigger] ts.push(v).take(k) == ts.take(k) by {
        assert(ts.push(v).take(k) =~= ts.take(k));
    }
    assert(ts.push(v).take(ts.len() + 1int) =~= ts.push(v));
}

/// Pushing a token that is neither INDENT, DEDENT nor EOF keeps the
/// bookkeeping.
proof fn lemma_push_plain(cs: Seq<char>, st: LexSt, v: TokV, st2: LexSt)
    requires
        state_ok(cs, st),
        v.tag != Tag::Indent,
        v.tag != Tag::Dedent,
        v.tag != Tag::Eof,
        st2.toks == st.toks.push(v),
        st2.stack == st.stack,
        0 <= st2.pos <= cs.len(),
        st2.depth >= 0,
    ensures
        state_ok(cs, st2),
{
    lemma_push_tok(st.toks, v);
    let ts2 = st.toks.push(v);
    assert forall|k: int| 0 <= k <= ts2.len() implies nesting(#[trigger] ts2.take(k)) >= 0 by {
        if k <= st.toks.len() {
            assert(st.toks.take(k) == ts2.take(k));
        }
    }
    assert forall|k: int| 0 <= k < ts2.len() implies (#[trigger] ts2[k]).tag != Tag::Eof by {
        if k < st.toks.len() {
            assert(ts2[k] == st.toks[k]);
        }
    }
}

proof fn lemma_dedent(cs: Seq<char>, st: LexSt, indent: int)
    requires
        state_ok(cs, st),
        indent >= 0,
    ensures
        ({
            let (stack, toks) = dedent(st.stack, indent, st.toks, st.line);
            state_ok(cs, LexSt { stack, toks, ..st })
            && stack.len() <= st.stack.len()
            && (forall|k: int| 0 <= k < stack.len() ==> stack[k] == st.stack[k])
        }),
    decreases st.stack.len(),
{
    if st.stack.len() > 0 && indent < st.stack.last() {
        let st1 = LexSt { stack: st.stack.drop_last(), toks: st.toks.push(tv(Tag::Dedent, st.line)), ..st };
        assert(st.stack.len() > 1);
        lemma_push_tok(st.toks, tv(Tag::Dedent, st.line));
        let ts2 = st1.toks;
        assert forall|k: int| 0 <= k <= ts2.len() implies nesting(#[trigger] ts2.take(k)) >= 0 by {
            if k <= st.toks.len() {
                assert(st.toks.take(k) == ts2.take(k));
            }
        }
        assert forall|k: int| 0 <= k < ts2.len() implies (#[trigger] ts2[k]).tag != Tag::Eof by {
            if k < st.toks.len() {
                assert(ts2[k] == st.toks[k]);
            }
        }
        assert(state_ok(cs, st1));
        lemma_dedent(cs, st1, indent);
    }
}

proof fn lemma_scan_indent(cs: Seq<char>, i: int, acc: int)
    requires
        acc >= 0,
        0 <= i,
    ensures
        scan_indent(cs, i, acc).0 >= 0,
        i <= scan_indent(cs, i, acc).1,
        scan_indent(cs, i, acc).1 <= cs.len() || scan_indent(cs, i, acc).1 == i,
    decreases cs.len() - i,
{
    if 0 <= i < cs.len() && (cs[i] == ' ' || cs[i] == '\t') {
        lemma_scan_indent(cs, i + 1, if cs[i] == ' ' { acc + 1 } else { acc + 4 });
    }
}

proof fn lemma_ends(cs: Seq<char>, i: int)
    requires
        0 <= i <= cs.len(),
    ensures
        i <= line_end(cs, i) <= cs.len(),
        i <= digits_end(cs, i) <= cs.len(),
        i <= ident_end(cs, i) <= cs.len(),
    decreases cs.len() - i,
{
    if i < cs.len() {
        lemma_ends(cs, i + 1);
    }
}

proof fn lemma_scan_string(cs: Seq<char>, i: int, acc: Seq<char>)
    requires
        0 <= i,
    ensures
        scan_string(cs, i, acc) matches Some((v, e)) ==> i < e <= cs.len(),
    decreases cs.len() - i,
{
    if 0 <= i < cs.len() && cs[i] != '"' {
        if cs[i] == '\\' {
            if i + 1 < cs.len() {
                lemma_scan_string(cs, i + 2, acc.push(escaped(cs[i + 1])));
            }
        } else {
            lemma_scan_string(cs, i + 1, acc.push(cs[i]));
        }
    }
}

proof fn lemma_indentation(cs: Seq<char>, st: LexSt)
    requires
        state_ok(cs, st),
    ensures
        match indentation(cs, st) {
            IndentOut::Blank(s) => state_ok(cs, s),
            IndentOut::Proceed(s) => state_ok(cs, s),
            IndentOut::Fail(_, _) => true,
        },
{
    lemma_scan_indent(cs, st.pos, 0);
    let (indent, i) = scan_indent(cs, st.pos, 0);
    if i < cs.len() {
        if cs[i] == '#' || (cs[i] == '/' && char_at(cs, i + 1) == Some('/')) {
            lemma_ends(cs, i);
        } else if cs[i] != '\n' {
            let current = st.stack.last();
            if indent > current {
                lemma_push_tok(st.toks, tv(Tag::Indent, st.line));
                let ts2 = st.toks.push(tv(Tag::Indent, st.line));
                assert forall|k: int| 0 <= k <= ts2.len() implies nesting(#[trigger] ts2.take(k)) >= 0 by {
                    if k <= st.toks.len() {
                        assert(st.toks.take(k) == ts2.take(k));
                    }
                }
                assert forall|k: int| 0 <= k < ts2.len() implies (#[trigger] ts2[k]).tag != Tag::Eof by {
                    if k < st.toks.len() {
                        assert(ts2[k] == st.toks[k]);
                    }
                }
                let s2 = st.stack.push(indent);
                assert forall|k: int| 0 <= k < s2.len() implies #[trigger] s2[k] >= 0 by {
                    if k < st.stack.len() {
                        assert(s2[k] == st.stack[k]);
                    }
                }
            } else if indent < current {
                lemma_dedent(cs, LexSt { pos: i, at_start: false, ..st }, indent);
            }
        }
    }
}

proof fn lemma_token_step(cs: Seq<char>, st: LexSt)
    requires
        state_ok(cs, st),
    ensures
        match token_step(cs, st) {
            Step::Cont(s) => state_ok(cs, s),
            Step::Stop(s) => state_ok(cs, s),
            Step::Fail(_, _) => true,
        },
{
    let pos = st.pos;
    if 0 <= pos < cs.len() {
        let c = cs[pos];
        lemma_ends(cs, pos);
        lemma_ends(cs, pos + 1);
        if c == '\n' {
            if st.depth == 0 {
                lemma_push_plain(cs, st, tv(Tag::Newline, st.line), LexSt {
                    pos: pos + 1,
                    line: st.line + 1,
                    at_start: true,
                    toks: st.toks.push(tv(Tag::Newline, st.line)),
                    ..st
                });
            }
        } else if c == ' ' || c == '\t' || c == '\r' {
        } else if c == '#' || (c == '/' && char_at(cs, pos + 1) == Some('/')) {
        } else if is_digit(c) {
            let e = digits_end(cs, pos);
            if e < cs.len() {
                lemma_ends(cs, e + 1);
            }
            let e2 = number_end(cs, pos);
            let v = TokV { tag: Tag::Number, text: cs.subrange(pos, e2), line: st.line };
            lemma_push_plain(cs, st, v, LexSt { pos: e2, toks: st.toks.push(v), ..st });
        } else if ident_start(c) {
            let e = ident_end(cs, pos);
            let v = word_token(cs.subrange(pos, e), st.line);
            lemma_push_plain(cs, st, v, LexSt { pos: e, toks: st.toks.push(v), ..st });
        } else if c == '"' {
            lemma_scan_string(cs, pos + 1, Seq::empty());
            match scan_string(cs, pos + 1, Seq::empty()) {
                None => {},
                Some((v, e)) => {
                    let t = TokV { tag: Tag::Str, text: v, line: st.line };
                    lemma_push_plain(cs, st, t, LexSt { pos: e, toks: st.toks.push(t), ..st });
                },
            }
        } else {
            match operator(c, char_at(cs, pos + 1)) {
                None => {},
                Some((t, n)) => {
                    lemma_push_plain(cs, st, tv(t, st.line), LexSt {
                        pos: pos + n,
                        depth: depth_after(t, st.depth),
                        toks: st.toks.push(tv(t, st.line)),
                        ..st
                    });
                },
            }
        }
    }
}

proof fn lemma_lex_from(cs: Seq<char>, st: LexSt)
    requires
        state_ok(cs, st),
    ensures
        lex_from(cs, st) matches LexEnd::Done(s) ==> state_ok(cs, s),
    decreases cs.len() - st.pos,
{
    if st.at_start && st.depth == 0 {
        lemma_indentation(cs, st);
        match indentation(cs, st) {
            IndentOut::Proceed(s) => lemma_token_step(cs, s),
            _ => {},
        }
    } else {
        lemma_token_step(cs, st);
    }
    match lex_step(cs, st) {
        Step::Cont(s2) => {
            if st.pos < s2.pos <= cs.len() {
                lemma_lex_from(cs, s2);
            }
        },
        _ => {},
    }
}

proof fn lemma_close_blocks(ts: Seq<TokV>, n: int, line: int)
    requires
        n >= 0,
        nesting(ts) >= n,
        never_overclosed(ts),
        no_eof(ts),
    ensures
        nesting(close_blocks(ts, n, line)) == nesting(ts) - n,
        never_overclosed(close_blocks(ts, n, line)),
        no_eof(close_blocks(ts, n, line)),
    decreases n,
{
    if n > 0 {
        let v = tv(Tag::Dedent, line);
        lemma_push_tok(ts, v);
        let ts2 = ts.push(v);
        assert forall|k: int| 0 <= k <= ts2.len() implies nesting(#[trigger] ts2.take(k)) >= 0 by {
            if k <= ts.len() {
                assert(ts.take(k) == ts2.take(k));
            }
        }
        assert forall|k: int| 0 <= k < ts2.len() implies (#[trigger] ts2[k]).tag != Tag::Eof by {
            if k < ts.len() {
                assert(ts2[k] == ts[k]);
            }
        }
        lemma_close_blocks(ts2, n - 1, line);
    }
}

/// The state in which the lexer reaches the end of `cs`, if it does.
pub open spec fn end_state(cs: Seq<char>) -> Option<LexSt> {
    match lex_from(cs, init_state()) {
        LexEnd::Done(st) => Some(st),
        LexEnd::Failed(_, _) => None,
    }
}

/// Every token stream ends with the single EOF; no prefix of it closes an
/// indentation block that was not opened; and when every bracket of the
/// text is closed at its end, the stream closes every block it opened.
pub proof fn lemma_lex_structure(cs: Seq<char>)
    ensures
        lex(cs) matches Ok(ts) ==> {
            &&& ts.len() >= 1
            &&& ts.last().tag == Tag::Eof
            &&& forall|k: int| 0 <= k < ts.len() - 1 ==> (#[trigger] ts[k]).tag != Tag::Eof
            &&& forall|k: int| 0 <= k <= ts.len() ==> nesting(#[trigger] ts.take(k)) >= 0
            &&& (end_state(cs) matches Some(st) && st.depth == 0 ==> nesting(ts) == 0)
        },
{
    let st0 = init_state();
    assert(st0.toks.take(0) =~= st0.toks);
    assert(state_ok(cs, st0));
    lemma_lex_from(cs, st0);
    match lex_from(cs, st0) {
        LexEnd::Done(st) => {
            let t1 = if !st.at_start && st.depth == 0 { st.toks.push(tv(Tag::Newline, st.line)) } else { st.toks };
            if !st.at_start && st.depth == 0 {
                lemma_push_plain(cs, st, tv(Tag::Newline, st.line), LexSt { toks: t1, ..st });
            }
            assert(nesting(t1) == st.stack.len() - 1);
            assert(never_overclosed(t1));
            assert(no_eof(t1));
            let t2 = if st.depth == 0 { close_blocks(t1, st.stack.len() - 1, st.line) } else { t1 };
            if st.depth == 0 {
                lemma_close_blocks(t1, st.stack.len() - 1, st.line);
            }
            let ts = t2.push(tv(Tag::Eof, st.line));
            lemma_push_tok(t2, tv(Tag::Eof, st.line));
            assert(ts == finish(st));
            assert forall|k: int| 0 <= k < ts.len() - 1 implies (#[trigger] ts[k]).tag != Tag::Eof by {
                assert(ts[k] == t2[k]);
            }
            assert forall|k: int| 0 <= k <= ts.len() implies nesting(#[trigger] ts.take(k)) >= 0 by {
                if k <= t2.len() {
                    assert(t2.take(k) == ts.take(k));
                }
            }
        },
        _ => {},
    }
}

} // verus!
