//! The multi-line text editor of the duel screen, where the player writes
//! the script: a cursor, Enter/Backspace/arrows, automatic indentation after
//! `:` or `{`, automatic dedent when `}` is typed at the start of a line, and
//! the identifier under the cursor for autocompletion. Reading the keyboard
//! is the caller's business; this is the text and its cursor.

use vstd::prelude::*;
use crate::script::lexer::{ident_continue, is_ident_continue};
use crate::text::{char_control, char_whitespace, chars_of, is_control, is_whitespace, push_chars, string_from};

verus! {

/// The width of one indentation step, in spaces.
pub const INDENT_WIDTH: usize = 4;

/// The editor as the specification sees it: its lines, and the cursor's row
/// and column (a column counts characters).
pub struct EdView {
    pub lines: Seq<Seq<char>>,
    pub row: int,
    pub col: int,
}

pub open spec fn ed_wf(v: EdView) -> bool {
    &&& v.lines.len() >= 1
    &&& 0 <= v.row < v.lines.len()
    &&& 0 <= v.col <= v.lines[v.row].len()
}

pub open spec fn spaces(n: nat) -> Seq<char> {
    Seq::new(n, |i: int| ' ')
}

pub open spec fn all_spaces(s: Seq<char>) -> bool {
    forall|i: int| 0 <= i < s.len() ==> s[i] == ' '
}

/// How many spaces the line starts with.
pub open spec fn leading_spaces(s: Seq<char>) -> nat
    decreases s.len(),
{
    if s.len() > 0 && s[0] == ' ' {
        1 + leading_spaces(s.skip(1))
    } else {
        0
    }
}

/// The text without its trailing white space.
pub open spec fn trim_end(s: Seq<char>) -> Seq<char>
    decreases s.len(),
{
    if s.len() > 0 && char_whitespace(s.last()) {
        trim_end(s.drop_last())
    } else {
        s
    }
}

/// Whether the text, trailing white space aside, ends by opening a block.
pub open spec fn opens_block(s: Seq<char>) -> bool {
    let t = trim_end(s);
    t.len() > 0 && (t.last() == ':' || t.last() == '{')
}

/// Typing `c` at the cursor. A `}` typed where only spaces (at least one
/// indentation step of them) stand before the cursor takes one step of
/// indentation away.
pub open spec fn ins_char(v: EdView, c: char) -> EdView {
    let line = v.lines[v.row];
    let before = line.take(v.col);
    if c == '}' && all_spaces(before) && before.len() >= INDENT_WIDTH {
        let k = (v.col - INDENT_WIDTH) as nat;
        EdView { lines: v.lines.update(v.row, spaces(k) + seq!['}'] + line.skip(v.col)), row: v.row, col: k + 1int }
    } else {
        EdView { lines: v.lines.update(v.row, before + seq![c] + line.skip(v.col)), row: v.row, col: v.col + 1 }
    }
}

/// Enter: the line is cut at the cursor; the new line keeps the leading
/// spaces of the text before the cursor, one step more when that text opens
/// a block.
pub open spec fn ins_newline(v: EdView) -> EdView {
    let line = v.lines[v.row];
    let before = line.take(v.col);
    let after = line.skip(v.col);
    let n = leading_spaces(before) + if opens_block(before) {
        INDENT_WIDTH as nat
    } else {
        0nat
    };
    EdView { lines: v.lines.update(v.row, before).insert(v.row + 1, spaces(n) + after), row: v.row + 1, col: n as int }
}

/// Backspace: removes the character before the cursor, or joins the line to
/// the previous one at the start of a line.
pub open spec fn backspace_spec(v: EdView) -> EdView {
    let line = v.lines[v.row];
    if v.col > 0 {
        EdView { lines: v.lines.update(v.row, line.remove(v.col - 1)), row: v.row, col: v.col - 1 }
    } else if v.row > 0 {
        let prev = v.lines[v.row - 1];
        EdView { lines: v.lines.remove(v.row).update(v.row - 1, prev + line), row: v.row - 1, col: prev.len() as int }
    } else {
        v
    }
}

pub open spec fn move_left_spec(v: EdView) -> EdView {
    if v.col > 0 {
        EdView { col: v.col - 1, ..v }
    } else if v.row > 0 {
        EdView { row: v.row - 1, col: v.lines[v.row - 1].len() as int, ..v }
    } else {
        v
    }
}

pub open spec fn move_right_spec(v: EdView) -> EdView {
    if v.col < v.lines[v.row].len() {
        EdView { col: v.col + 1, ..v }
    } else if v.row + 1 < v.lines.len() {
        EdView { row: v.row + 1, col: 0, ..v }
    } else {
        v
    }
}

pub open spec fn min_int(a: int, b: int) -> int {
    if a < b {
        a
    } else {
        b
    }
}

pub open spec fn move_up_spec(v: EdView) -> EdView {
    if v.row > 0 {
        EdView { row: v.row - 1, col: min_int(v.col, v.lines[v.row - 1].len() as int), ..v }
    } else {
        v
    }
}

pub open spec fn move_down_spec(v: EdView) -> EdView {
    if v.row + 1 < v.lines.len() {
        EdView { row: v.row + 1, col: min_int(v.col, v.lines[v.row + 1].len() as int), ..v }
    } else {
        v
    }
}

/// Typing a piece of text: each `\n` is an Enter, every other character is
/// typed.
pub open spec fn snippet_spec(v: EdView, t: Seq<char>) -> EdView
    decreases t.len(),
{
    if t.len() == 0 {
        v
    } else {
        let w = snippet_spec(v, t.drop_last());
        if t.last() == '\n' {
            ins_newline(w)
        } else {
            ins_char(w, t.last())
        }
    }
}

/// The position of the first line break of `s`, or its length when there
/// is none.
pub open spec fn first_nl(s: Seq<char>) -> nat
    decreases s.len(),
{
    if s.len() == 0 {
        0
    } else if s[0] == '\n' {
        0
    } else {
        1 + first_nl(s.skip(1))
    }
}

/// The text cut at every line break (an empty text is one empty line).
pub open spec fn split_lines(s: Seq<char>) -> Seq<Seq<char>>
    decreases s.len(),
{
    let i = first_nl(s);
    if i >= s.len() {
        seq![s]
    } else {
        seq![s.take(i as int)] + split_lines(s.skip(i + 1int))
    }
}

/// The lines joined by line breaks.
pub open spec fn join_lines(ls: Seq<Seq<char>>) -> Seq<char>
    decreases ls.len(),
{
    if ls.len() == 0 {
        Seq::empty()
    } else if ls.len() == 1 {
        ls[0]
    } else {
        ls[0] + seq!['\n'] + join_lines(ls.skip(1))
    }
}

/// Where the run of identifier characters that ends at `col` starts.
pub open spec fn ident_run_start(line: Seq<char>, col: int) -> int
    decreases col,
{
    if col > 0 && col <= line.len() && ident_continue(line[col - 1]) {
        ident_run_start(line, col - 1)
    } else {
        col
    }
}

pub open spec fn lines_view(v: Seq<String>) -> Seq<Seq<char>> {
    v.map_values(|s: String| s@)
}

pub struct CodeEditor {
    pub lines: Vec<String>,
    pub cursor_row: usize,
    pub cursor_col: usize,
    /// the line lit up while the turn is animated, if any (from zero)
    pub highlighted_line: Option<usize>,
}

fn line_chars(lines: &Vec<String>, row: usize) -> (r: Vec<char>)
    requires
        row < lines@.len(),
    ensures
        r@ == lines@[row as int]@,
{
    chars_of(lines[row].as_str())
}

fn chars_slice(cs: &Vec<char>, from: usize, to: usize) -> (r: Vec<char>)
    requires
        from <= to <= cs@.len(),
    ensures
        r@ == cs@.subrange(from as int, to as int),
{
    let mut out: Vec<char> = Vec::new();
    let mut i = from;
    while i < to
        invariant
            from <= i <= to,
            to <= cs@.len(),
            out@ == cs@.subrange(from as int, i as int),
        decreases to - i,
    {
        out.push(cs[i]);
        i += 1;
        assert(out@ =~= cs@.subrange(from as int, i as int));
    }
    out
}

fn spaces_string(n: usize) -> (r: Vec<char>)
    ensures
        r@ == spaces(n as nat),
{
    let mut out: Vec<char> = Vec::new();
    let mut i: usize = 0;
    while i < n
        invariant
            i <= n,
            out@ == spaces(i as nat),
        decreases n - i,
    {
        out.push(' ');
        i += 1;
        assert(out@ =~= spaces(i as nat));
    }
    out
}

fn count_leading_spaces(s: &Vec<char>) -> (r: usize)
    ensures
        r == leading_spaces(s@),
        r <= s@.len(),
{
    let n = s.len();
    let mut i: usize = 0;
    while i < n && s[i] == ' '
        invariant
            i <= n,
            n == s@.len(),
            forall|j: int| 0 <= j < i ==> s@[j] == ' ',
        decreases n - i,
    {
        i += 1;
    }
    proof {
        lemma_leading_spaces(s@, i as int);
    }
    i
}

proof fn lemma_leading_spaces(s: Seq<char>, i: int)
    requires
        0 <= i <= s.len(),
        forall|j: int| 0 <= j < i ==> s[j] == ' ',
        i == s.len() || s[i] != ' ',
    ensures
        leading_spaces(s) == i,
    decreases i,
{
    if i > 0 {
        lemma_leading_spaces(s.skip(1), i - 1);
    }
}

fn trimmed_len(s: &Vec<char>) -> (r: usize)
    ensures
        r <= s@.len(),
        trim_end(s@) == s@.take(r as int),
{
    let mut k = s.len();
    assert(s@.take(k as int) =~= s@);
    while k > 0 && is_whitespace(s[k - 1])
        invariant
            k <= s@.len(),
            trim_end(s@) == trim_end(s@.take(k as int)),
        decreases k,
    {
        assert(s@.take(k as int).drop_last() =~= s@.take(k - 1));
        k -= 1;
    }
    k
}


fn extend_chars(a: &mut Vec<char>, b: &Vec<char>)
    ensures
        final(a)@ == old(a)@ + b@,
{
    let n = b.len();
    let mut i: usize = 0;
    while i < n
        invariant
            n == b@.len(),
            i <= n,
            a@ == old(a)@ + b@.take(i as int),
        decreases n - i,
    {
        a.push(b[i]);
        i += 1;
        assert(a@ =~= old(a)@ + b@.take(i as int));
    }
    assert(b@.take(n as int) =~= b@);
}

/// The identifier that ends at the cursor, as autocompletion takes it: the
/// column where it starts and the text typed so far; `None` when the
/// character before the cursor does not belong to an identifier.
pub open spec fn ident_prefix(v: EdView) -> Option<(int, Seq<char>)> {
    let line = v.lines[v.row];
    if v.col == 0 || !ident_continue(line[v.col - 1]) {
        None
    } else {
        let start = ident_run_start(line, v.col);
        Some((start, line.subrange(start, v.col)))
    }
}

proof fn lemma_ident_run_start(line: Seq<char>, col: int)
    requires
        0 <= col <= line.len(),
    ensures
        0 <= ident_run_start(line, col) <= col,
        forall|j: int| ident_run_start(line, col) <= j < col ==> ident_continue(#[trigger] line[j]),
    decreases col,
{
    if col > 0 && ident_continue(line[col - 1]) {
        lemma_ident_run_start(line, col - 1);
    }
}

/// The first line break of a text is the one right after a break-free prefix.
pub proof fn lemma_first_nl_at(cur: Seq<char>, rest: Seq<char>)
    requires
        forall|j: int| 0 <= j < cur.len() ==> cur[j] != '\n',
        rest.len() > 0,
        rest[0] == '\n',
    ensures
        first_nl(cur + rest) == cur.len(),
    decreases cur.len(),
{
    if cur.len() > 0 {
        assert((cur + rest).skip(1) =~= cur.skip(1) + rest);
        lemma_first_nl_at(cur.skip(1), rest);
    } else {
        assert(cur + rest =~= rest);
    }
}

proof fn lemma_split_at_nl(cur: Seq<char>, rest: Seq<char>)
    requires
        forall|j: int| 0 <= j < cur.len() ==> cur[j] != '\n',
        rest.len() > 0,
        rest[0] == '\n',
        first_nl(cur + rest) == cur.len(),
    ensures
        split_lines(cur + rest) == seq![cur] + split_lines(rest.skip(1)),
{
    let s = cur + rest;
    assert(s.take(cur.len() as int) =~= cur);
    assert(s.skip(cur.len() + 1int) =~= rest.skip(1));
}

/// A text without line breaks has its first break at its end.
pub proof fn lemma_first_nl_none(cur: Seq<char>)
    requires
        forall|j: int| 0 <= j < cur.len() ==> cur[j] != '\n',
    ensures
        first_nl(cur) == cur.len(),
        split_lines(cur) == seq![cur],
    decreases cur.len(),
{
    if cur.len() > 0 {
        lemma_first_nl_none(cur.skip(1));
    }
}


proof fn lemma_first_nl_bounds(s: Seq<char>)
    ensures
        first_nl(s) <= s.len(),
        first_nl(s) < s.len() ==> s[first_nl(s) as int] == '\n',
        forall|j: int| 0 <= j < first_nl(s) ==> s[j] != '\n',
    decreases s.len(),
{
    if s.len() > 0 && s[0] != '\n' {
        lemma_first_nl_bounds(s.skip(1));
        assert forall|j: int| 0 <= j < first_nl(s) implies s[j] != '\n' by {
            if j > 0 {
                assert(s[j] == s.skip(1)[j - 1]);
            }
        }
    }
}

proof fn lemma_split_nonempty(s: Seq<char>)
    ensures
        split_lines(s).len() >= 1,
    decreases s.len(),
{
    lemma_first_nl_bounds(s);
    let i = first_nl(s);
    if i < s.len() {
        lemma_split_nonempty(s.skip(i + 1int));
    }
}

/// Loading a text and reading the editor's text back gives the same text:
/// cutting at line breaks and joining with them are inverse.
pub proof fn lemma_load_then_text(t: Seq<char>)
    ensures
        join_lines(split_lines(t)) == t,
    decreases t.len(),
{
    lemma_first_nl_bounds(t);
    let i = first_nl(t);
    if i < t.len() {
        let rest = t.skip(i + 1int);
        lemma_load_then_text(rest);
        lemma_split_nonempty(rest);
        let ls = split_lines(t);
        assert(ls == seq![t.take(i as int)] + split_lines(rest));
        assert(ls.skip(1) =~= split_lines(rest));
        assert(ls[0] == t.take(i as int));
        assert(t =~= t.take(i as int) + seq!['\n'] + rest);
    }
}

/// Typing a character and pressing Backspace gives the editor back as it
/// was, unless the character was a `}` that took indentation away.
pub proof fn lemma_type_then_backspace(v: EdView, c: char)
    requires
        ed_wf(v),
        !(c == '}' && all_spaces(v.lines[v.row].take(v.col)) && v.col >= INDENT_WIDTH),
    ensures
        backspace_spec(ins_char(v, c)) == v,
{
    let line = v.lines[v.row];
    let w = ins_char(v, c);
    let typed = line.take(v.col) + seq![c] + line.skip(v.col);
    assert(w.lines[w.row] == typed);
    assert(typed.remove(v.col) =~= line);
    assert(w.lines.update(v.row, line) =~= v.lines);
}

/// Enter keeps the text: the line is cut at the cursor, the part before
/// stays, and the new line below is some spaces of indentation followed by
/// exactly the part after the cursor, where the cursor now stands; every
/// other line is kept, those below moved down by one.
pub proof fn lemma_newline_keeps_the_text(v: EdView)
    requires
        ed_wf(v),
    ensures
        ({
            let w = ins_newline(v);
            &&& w.lines.len() == v.lines.len() + 1
            &&& w.row == v.row + 1
            &&& 0 <= w.col <= w.lines[w.row].len()
            &&& w.lines[v.row] == v.lines[v.row].take(v.col)
            &&& all_spaces(w.lines[w.row].take(w.col))
            &&& w.lines[v.row] + w.lines[w.row].skip(w.col) == v.lines[v.row]
            &&& forall|i: int| 0 <= i < v.row ==> #[trigger] w.lines[i] == v.lines[i]
            &&& forall|i: int| v.row < i < v.lines.len() ==> #[trigger] w.lines[i + 1] == v.lines[i]
        }),
{
    let w = ins_newline(v);
    let line = v.lines[v.row];
    let after = line.skip(v.col);
    let nl = w.lines[w.row];
    assert(nl.skip(w.col) =~= after);
    assert(line.take(v.col) + after =~= line);
    assert(all_spaces(nl.take(w.col))) by {
        assert forall|i: int| 0 <= i < nl.take(w.col).len() implies nl.take(w.col)[i] == ' ' by {}
    }
}

/// The arrows move the cursor and never touch the text; right then left
/// comes back to the same place, except at the very end of the text, and
/// left then right too, except at its very start.
pub proof fn lemma_arrows_undo_each_other(v: EdView)
    requires
        ed_wf(v),
    ensures
        move_left_spec(v).lines == v.lines,
        move_right_spec(v).lines == v.lines,
        move_up_spec(v).lines == v.lines,
        move_down_spec(v).lines == v.lines,
        (v.col < v.lines[v.row].len() || v.row + 1 < v.lines.len()) ==> move_left_spec(move_right_spec(v)) == v,
        (v.col > 0 || v.row > 0) ==> move_right_spec(move_left_spec(v)) == v,
{
}

/// Every editing step keeps the editor well formed: at least one line, the
/// cursor on a line and within it.
pub proof fn lemma_steps_keep_wf(v: EdView, c: char)
    requires
        ed_wf(v),
    ensures
        ed_wf(ins_char(v, c)),
        ed_wf(ins_newline(v)),
        ed_wf(backspace_spec(v)),
        ed_wf(move_left_spec(v)),
        ed_wf(move_right_spec(v)),
        ed_wf(move_up_spec(v)),
        ed_wf(move_down_spec(v)),
{
}

impl CodeEditor {
    /// The text and the cursor; the highlighted line is not part of it and
    /// every contract states it on its own.
    pub open spec fn view(&self) -> EdView {
        EdView { lines: lines_view(self.lines@), row: self.cursor_row as int, col: self.cursor_col as int }
    }

    pub open spec fn wf(&self) -> bool {
        ed_wf(self.view())
    }

    /// An editor with one empty line.
    pub fn new() -> (r: CodeEditor)
        ensures
            r.wf(),
            r.view().lines == seq![Seq::<char>::empty()],
            r.view().row == 0,
            r.view().col == 0,
            r.highlighted_line is None,
    {
        let ed = CodeEditor { lines: vec![String::new()], cursor_row: 0, cursor_col: 0, highlighted_line: None };
        assert(ed.view().lines =~= seq![Seq::<char>::empty()]);
        ed
    }

    fn set_line(&mut self, row: usize, cs: &Vec<char>)
        requires
            row < old(self).lines@.len(),
        ensures
            final(self).lines@.len() == old(self).lines@.len(),
            lines_view(final(self).lines@) == lines_view(old(self).lines@).update(row as int, cs@),
            final(self).cursor_row == old(self).cursor_row,
            final(self).cursor_col == old(self).cursor_col,
            final(self).highlighted_line == old(self).highlighted_line,
    {
        let s = string_from(cs.as_slice());
        self.lines.set(row, s);
        assert(lines_view(self.lines@) =~= lines_view(old(self).lines@).update(row as int, cs@));
    }

    /// The whole text, lines joined by line breaks.
    pub fn text(&self) -> (r: String)
        requires
            self.wf(),
        ensures
            r@ == join_lines(self.view().lines),
    {
        let n = self.lines.len();
        let mut out: Vec<char> = Vec::new();
        let mut i: usize = n;
        let ghost ls = lines_view(self.lines@);
        // built from the last line backwards: out == join of lines[i..]
        let last = line_chars(&self.lines, n - 1);
        extend_chars(&mut out, &last);
        i = n - 1;
        assert(ls.skip(i as int) =~= seq![ls[i as int]]);
        while i > 0
            invariant
                n == self.lines@.len(),
                ls == lines_view(self.lines@),
                ls.len() == n,
                i < n,
                out@ == join_lines(ls.skip(i as int)),
            decreases i,
        {
            let mut piece = line_chars(&self.lines, i - 1);
            piece.push('\n');
            extend_chars(&mut piece, &out);
            out = piece;
            i -= 1;
            assert(ls.skip(i as int).skip(1) =~= ls.skip(i + 1));
            assert(ls.skip(i as int)[0] == ls[i as int]);
        }
        assert(ls.skip(0) =~= ls);
        string_from(out.as_slice())
    }

    /// Back to one empty line, cursor at its start, nothing lit.
    pub fn clear(&mut self)
        ensures
            final(self).wf(),
            final(self).view().lines == seq![Seq::<char>::empty()],
            final(self).view().row == 0,
            final(self).view().col == 0,
            final(self).highlighted_line is None,
    {
        self.lines = vec![String::new()];
        self.cursor_row = 0;
        self.cursor_col = 0;
        self.highlighted_line = None;
        assert(self.view().lines =~= seq![Seq::<char>::empty()]);
    }

    /// Replaces the whole content by `text` (never merges with what was
    /// there), cursor at the end of it.
    pub fn load_text(&mut self, text: &str)
        ensures
            final(self).wf(),
            final(self).view().lines == split_lines(text@),
            final(self).view().row == split_lines(text@).len() - 1,
            final(self).view().col == split_lines(text@).last().len(),
            final(self).highlighted_line is None,
    {
        let cs = chars_of(text);
        let n = cs.len();
        let mut lines: Vec<String> = Vec::new();
        let mut cur: Vec<char> = Vec::new();
        let mut i: usize = 0;
        proof {
            assert(cs@.skip(0) =~= cs@);
            assert(cur@ + cs@.skip(0) =~= cs@);
        }
        while i < n
            invariant
                n == cs@.len(),
                i <= n,
                cs@ == text@,
                forall|j: int| 0 <= j < cur@.len() ==> cur@[j] != '\n',
                lines_view(lines@) + split_lines(cur@ + cs@.skip(i as int)) == split_lines(text@),
            decreases n - i,
        {
            let c = cs[i];
            proof {
                assert(cs@.skip(i as int).skip(1) =~= cs@.skip(i + 1));
                assert(cs@.skip(i as int)[0] == c);
            }
            if c == '\n' {
                proof {
                    lemma_first_nl_at(cur@, cs@.skip(i as int));
                    lemma_split_at_nl(cur@, cs@.skip(i as int));
                }
                let ghost before = lines@;
                lines.push(string_from(cur.as_slice()));
                assert(lines_view(lines@) =~= lines_view(before) + seq![cur@]);
                cur = Vec::new();
                assert(cur@ + cs@.skip(i + 1) =~= cs@.skip(i + 1));
            } else {
                let ghost old_cur = cur@;
                cur.push(c);
                assert(old_cur + cs@.skip(i as int) =~= cur@ + cs@.skip(i + 1));
            }
            i += 1;
        }
        proof {
            assert(cs@.skip(n as int) =~= Seq::<char>::empty());
            assert(cur@ + cs@.skip(n as int) =~= cur@);
            lemma_first_nl_none(cur@);
        }
        let ghost before = lines@;
        lines.push(string_from(cur.as_slice()));
        assert(lines_view(lines@) =~= lines_view(before) + seq![cur@]);
        let last_len = cur.len();
        let rows = lines.len();
        self.lines = lines;
        self.cursor_row = rows - 1;
        self.cursor_col = last_len;
        self.highlighted_line = None;
    }


    /// Types `c` at the cursor.
    pub fn insert_char(&mut self, c: char)
        requires
            old(self).wf(),
        ensures
            final(self).wf(),
            final(self).view() == ins_char(old(self).view(), c),
            final(self).highlighted_line == old(self).highlighted_line,
    {
        let ghost v = self.view();
        let row = self.cursor_row;
        let col = self.cursor_col;
        let line = line_chars(&self.lines, row);
        let len = line.len();
        let rest = chars_slice(&line, col, len);
        assert(rest@ == v.lines[v.row].skip(v.col));
        if c == '}' {
            let mut all = true;
            let mut i: usize = 0;
            while i < col
                invariant
                    i <= col <= line@.len(),
                    all == (forall|j: int| 0 <= j < i ==> line@[j] == ' '),
                decreases col - i,
            {
                if line[i] != ' ' {
                    all = false;
                }
                i += 1;
            }
            proof {
                let b = line@.take(col as int);
                if all {
                    assert forall|j: int| 0 <= j < b.len() implies b[j] == ' ' by {
                        assert(b[j] == line@[j]);
                    }
                } else {
                    let j = choose|j: int| 0 <= j < col && line@[j] != ' ';
                    assert(b[j] == line@[j]);
                }
            }
            if all && col >= INDENT_WIDTH {
                let k = col - INDENT_WIDTH;
                let mut nl = spaces_string(k);
                nl.push('}');
                extend_chars(&mut nl, &rest);
                assert(v.lines[v.row] == line@);
                assert(nl@ =~= spaces(k as nat) + seq!['}'] + v.lines[v.row].skip(v.col));
                self.set_line(row, &nl);
                self.cursor_col = k + 1;
                assert(self.view().lines =~= ins_char(v, c).lines);
                return;
            }
        }
        let mut nl = chars_slice(&line, 0, col);
        nl.push(c);
        let new_col = nl.len();
        extend_chars(&mut nl, &rest);
        assert(v.lines[v.row] == line@);
        assert(nl@ =~= v.lines[v.row].take(v.col) + seq![c] + v.lines[v.row].skip(v.col));
        self.set_line(row, &nl);
        self.cursor_col = new_col;
        assert(self.view().lines =~= ins_char(v, c).lines);
    }

    /// Enter at the cursor, with automatic indentation.
    pub fn insert_newline(&mut self)
        requires
            old(self).wf(),
        ensures
            final(self).wf(),
            final(self).view() == ins_newline(old(self).view()),
            final(self).highlighted_line == old(self).highlighted_line,
    {
        let ghost v = self.view();
        let _nlines = self.lines.len();
        let row = self.cursor_row;
        let col = self.cursor_col;
        let line = line_chars(&self.lines, row);
        let len = line.len();
        let before = chars_slice(&line, 0, col);
        let after = chars_slice(&line, col, len);
        let t = trimmed_len(&before);
        let opens = t > 0 && (before[t - 1] == ':' || before[t - 1] == '{');
        assert(opens == opens_block(before@));
        let lead = count_leading_spaces(&before);
        let mut indent = spaces_string(lead);
        if opens {
            let mut k: usize = 0;
            while k < INDENT_WIDTH
                invariant
                    k <= INDENT_WIDTH,
                    indent@ == spaces((lead + k) as nat),
                decreases INDENT_WIDTH - k,
            {
                indent.push(' ');
                k += 1;
                assert(indent@ =~= spaces((lead + k) as nat));
            }
        }
        let n = indent.len();
        let mut nl = indent;
        extend_chars(&mut nl, &after);
        self.set_line(row, &before);
        let ghost mid = self.lines@;
        self.lines.insert(row + 1, string_from(nl.as_slice()));
        assert(lines_view(self.lines@) =~= lines_view(mid).insert(row + 1, nl@));
        self.cursor_row = row + 1;
        self.cursor_col = n;
        assert(self.view().lines =~= ins_newline(v).lines);
    }

    /// Backspace at the cursor.
    pub fn backspace(&mut self)
        requires
            old(self).wf(),
        ensures
            final(self).wf(),
            final(self).view() == backspace_spec(old(self).view()),
            final(self).highlighted_line == old(self).highlighted_line,
    {
        let ghost v = self.view();
        let row = self.cursor_row;
        let col = self.cursor_col;
        if col > 0 {
            let line = line_chars(&self.lines, row);
            let len = line.len();
            let mut nl = chars_slice(&line, 0, col - 1);
            let rest = chars_slice(&line, col, len);
            extend_chars(&mut nl, &rest);
            assert(nl@ =~= line@.remove(col - 1));
            self.set_line(row, &nl);
            self.cursor_col = col - 1;
            assert(self.view().lines =~= backspace_spec(v).lines);
        } else if row > 0 {
            let removed = self.lines.remove(row);
            assert(lines_view(self.lines@) =~= v.lines.remove(row as int));
            let removed_chars = chars_of(removed.as_str());
            let mut prev = line_chars(&self.lines, row - 1);
            let prev_len = prev.len();
            extend_chars(&mut prev, &removed_chars);
            self.set_line(row - 1, &prev);
            self.cursor_row = row - 1;
            self.cursor_col = prev_len;
            assert(self.view().lines =~= backspace_spec(v).lines);
        }
    }

    pub fn move_left(&mut self)
        requires
            old(self).wf(),
        ensures
            final(self).wf(),
            final(self).view() == move_left_spec(old(self).view()),
            final(self).highlighted_line == old(self).highlighted_line,
    {
        if self.cursor_col > 0 {
            self.cursor_col = self.cursor_col - 1;
        } else if self.cursor_row > 0 {
            self.cursor_row = self.cursor_row - 1;
            self.cursor_col = line_chars(&self.lines, self.cursor_row).len();
        }
    }

    pub fn move_right(&mut self)
        requires
            old(self).wf(),
        ensures
            final(self).wf(),
            final(self).view() == move_right_spec(old(self).view()),
            final(self).highlighted_line == old(self).highlighted_line,
    {
        let _nlines = self.lines.len();
        let len = line_chars(&self.lines, self.cursor_row).len();
        if self.cursor_col < len {
            self.cursor_col = self.cursor_col + 1;
        } else if self.cursor_row + 1 < self.lines.len() {
            self.cursor_row = self.cursor_row + 1;
            self.cursor_col = 0;
        }
    }

    /// Up arrow: the previous line, the column kept where the line allows.
    pub fn move_up(&mut self)
        requires
            old(self).wf(),
        ensures
            final(self).wf(),
            final(self).view() == move_up_spec(old(self).view()),
            final(self).highlighted_line == old(self).highlighted_line,
    {
        if self.cursor_row > 0 {
            self.cursor_row = self.cursor_row - 1;
            let len = line_chars(&self.lines, self.cursor_row).len();
            if len < self.cursor_col {
                self.cursor_col = len;
            }
        }
    }

    /// Down arrow: the next line, the column kept where the line allows.
    pub fn move_down(&mut self)
        requires
            old(self).wf(),
        ensures
            final(self).wf(),
            final(self).view() == move_down_spec(old(self).view()),
            final(self).highlighted_line == old(self).highlighted_line,
    {
        let _nlines = self.lines.len();
        if self.cursor_row + 1 < self.lines.len() {
            self.cursor_row = self.cursor_row + 1;
            let len = line_chars(&self.lines, self.cursor_row).len();
            if len < self.cursor_col {
                self.cursor_col = len;
            }
        }
    }

    /// A character typed on the keyboard: control characters are ignored.
    pub fn type_char(&mut self, c: char)
        requires
            old(self).wf(),
        ensures
            final(self).wf(),
            char_control(c) ==> final(self).view() == old(self).view(),
            !char_control(c) ==> final(self).view() == ins_char(old(self).view(), c),
            final(self).highlighted_line == old(self).highlighted_line,
    {
        if !is_control(c) {
            self.insert_char(c);
        }
    }

    /// Tab: one step of indentation, typed as spaces.
    pub fn insert_indent(&mut self)
        requires
            old(self).wf(),
        ensures
            final(self).wf(),
            final(self).view() == snippet_spec(old(self).view(), spaces(INDENT_WIDTH as nat)),
            final(self).highlighted_line == old(self).highlighted_line,
    {
        let ghost v = self.view();
        let mut k: usize = 0;
        while k < INDENT_WIDTH
            invariant
                k <= INDENT_WIDTH,
                self.wf(),
                self.view() == snippet_spec(v, spaces(k as nat)),
                self.highlighted_line == old(self).highlighted_line,
            decreases INDENT_WIDTH - k,
        {
            assert(spaces((k + 1) as nat).drop_last() =~= spaces(k as nat));
            self.insert_char(' ');
            k += 1;
        }
    }

    /// Types a piece of text at the cursor, as if typed: each line break is
    /// an Enter.
    pub fn insert_snippet(&mut self, text: &str)
        requires
            old(self).wf(),
        ensures
            final(self).wf(),
            final(self).view() == snippet_spec(old(self).view(), text@),
            final(self).highlighted_line == old(self).highlighted_line,
    {
        let ghost v = self.view();
        let cs = chars_of(text);
        let n = cs.len();
        let mut i: usize = 0;
        assert(cs@.take(0) =~= Seq::<char>::empty());
        while i < n
            invariant
                n == cs@.len(),
                cs@ == text@,
                i <= n,
                self.wf(),
                self.view() == snippet_spec(v, cs@.take(i as int)),
                self.highlighted_line == old(self).highlighted_line,
            decreases n - i,
        {
            assert(cs@.take(i + 1).drop_last() =~= cs@.take(i as int));
            if cs[i] == '\n' {
                self.insert_newline();
            } else {
                self.insert_char(cs[i]);
            }
            i += 1;
        }
        assert(cs@.take(n as int) =~= cs@);
    }

    /// The identifier that ends at the cursor: where it starts and what was
    /// typed of it; `None` when the character before the cursor is not part
    /// of an identifier (start of line, after a space, a parenthesis, a dot).
    pub fn identifier_prefix_before_cursor(&self) -> (r: Option<(usize, String)>)
        requires
            self.wf(),
        ensures
            match (r, ident_prefix(self.view())) {
                (Some((a, p)), Some((b, q))) => a == b && p@ == q,
                (None, None) => true,
                _ => false,
            },
    {
        let line = line_chars(&self.lines, self.cursor_row);
        let col = self.cursor_col;
        if col == 0 || !is_ident_continue(line[col - 1]) {
            return None;
        }
        let mut start = col;
        while start > 0 && is_ident_continue(line[start - 1])
            invariant
                start <= col <= line@.len(),
                ident_run_start(line@, col as int) == ident_run_start(line@, start as int),
            decreases start,
        {
            start -= 1;
        }
        let prefix = chars_slice(&line, start, col);
        Some((start, string_from(prefix.as_slice())))
    }

    /// Replaces the text from `start_col` to the cursor by `replacement`,
    /// the rest of the line untouched, and puts the cursor after it.
    pub fn replace_identifier_prefix(&mut self, start_col: usize, replacement: &str)
        requires
            old(self).wf(),
            start_col <= old(self).view().lines[old(self).view().row].len(),
        ensures
            final(self).wf(),
            ({
                let v = old(self).view();
                let line = v.lines[v.row];
                let nl = line.take(start_col as int) + replacement@ + line.skip(v.col);
                &&& final(self).view().lines == v.lines.update(v.row, nl)
                &&& final(self).view().row == v.row
                &&& final(self).view().col == start_col + replacement@.len()
            }),
            final(self).highlighted_line == old(self).highlighted_line,
    {
        let ghost v = self.view();
        let row = self.cursor_row;
        let line = line_chars(&self.lines, row);
        let len = line.len();
        let mut nl = chars_slice(&line, 0, start_col);
        let rep = chars_of(replacement);
        extend_chars(&mut nl, &rep);
        let new_col = nl.len();
        let rest = chars_slice(&line, self.cursor_col, len);
        extend_chars(&mut nl, &rest);
        self.set_line(row, &nl);
        self.cursor_col = new_col;
        assert(self.view().lines =~= v.lines.update(v.row, line@.take(start_col as int) + replacement@ + line@.skip(v.col)));
    }

}

impl Default for CodeEditor {
    fn default() -> (r: CodeEditor)
        ensures
            r.wf(),
            r.view().lines == seq![Seq::<char>::empty()],
            r.view().row == 0,
            r.view().col == 0,
            r.highlighted_line is None,
    {
        CodeEditor::new()
    }
}

} // verus!
