//! Syntax colouring of the editor, for display only: each line is cut into
//! segments by the class of their characters, without asking the text to be
//! a valid script (the player may be in the middle of typing). Concatenated,
//! the segments give the line back exactly, spacing and quotes included.

use vstd::prelude::*;
use crate::script::lexer::{ident_continue, ident_start, is_ident_continue, is_ident_start};
use crate::text::{char_uppercase, chars_of, is_uppercase, lowercase, str_eq, string_from, to_lowercase};

verus! {

/// How a segment is coloured.
#[derive(Debug, Clone, Copy, PartialEq, Eq)]
pub enum Tone {
    /// spaces and ordinary names
    Plain,
    /// text in quotes, numbers, and values written like `Fogo`
    Literal,
    /// control words, native actions and the collections (`espada`, `eu`)
    Keyword,
    /// `( ) { } [ ] : ,`
    Punct,
    /// anything else, the `.` of `magia.Fogo` included
    Symbol,
}

pub open spec fn keyword_word(w: Seq<char>) -> bool {
    w == "if"@ || w == "else"@ || w == "while"@ || w == "for"@ || w == "func"@ || w == "invocar"@ || w == "in"@
        || w == "and"@ || w == "or"@ || w == "not"@ || w == "e"@ || w == "ou"@ || w == "nao"@ || w == "true"@
        || w == "false"@
}

pub open spec fn builtin_word(w: Seq<char>) -> bool {
    w == "atacar"@ || w == "defender"@ || w == "inspecionar"@ || w == "curar"@ || w == "esperar"@ || w == "espada"@
        || w == "magia"@ || w == "escudo"@ || w == "pocao"@ || w == "eu"@ || w == "inimigo"@
}

pub open spec fn is_punct(c: char) -> bool {
    c == '(' || c == ')' || c == '{' || c == '}' || c == '[' || c == ']' || c == ':' || c == ','
}

pub open spec fn ascii_digit(c: char) -> bool {
    '0' <= c && c <= '9'
}

/// The end of the run of characters from `i` on that satisfy `p`.
pub open spec fn run_end(cs: Seq<char>, i: int, p: spec_fn(char) -> bool) -> int
    decreases cs.len() - i,
{
    if 0 <= i < cs.len() && p(cs[i]) {
        run_end(cs, i + 1, p)
    } else {
        i
    }
}

/// Where the segment that starts at `i` ends: a run of spaces, a quoted
/// text (to the closing quote, or the end of the line), a number (digits
/// and dots), a name, or a single character.
pub open spec fn seg_end(cs: Seq<char>, i: int) -> int {
    let c = cs[i];
    if c == ' ' {
        run_end(cs, i, |x: char| x == ' ')
    } else if c == '"' {
        let k = run_end(cs, i + 1, |x: char| x != '"');
        if k < cs.len() {
            k + 1
        } else {
            k
        }
    } else if ascii_digit(c) {
        run_end(cs, i, |x: char| ascii_digit(x) || x == '.')
    } else if ident_start(c) {
        run_end(cs, i + 1, |x: char| ident_continue(x))
    } else {
        i + 1
    }
}

/// The tone of a name: a control word in any case, a value when it starts
/// with an upper-case letter, a native action or collection, or plain.
pub open spec fn word_tone(w: Seq<char>) -> Tone {
    if keyword_word(lowercase(w)) {
        Tone::Keyword
    } else if w.len() > 0 && char_uppercase(w[0]) {
        Tone::Literal
    } else if builtin_word(w) {
        Tone::Keyword
    } else {
        Tone::Plain
    }
}

pub open spec fn seg_tone(seg: Seq<char>, c: char) -> Tone {
    if c == ' ' {
        Tone::Plain
    } else if c == '"' || ascii_digit(c) {
        Tone::Literal
    } else if ident_start(c) {
        word_tone(seg)
    } else if is_punct(c) {
        Tone::Punct
    } else {
        Tone::Symbol
    }
}

/// The segments of the line from `i` on.
pub open spec fn segments_from(cs: Seq<char>, i: int) -> Seq<(Seq<char>, Tone)>
    decreases cs.len() - i,
{
    if i < 0 || i >= cs.len() {
        Seq::empty()
    } else {
        let j = seg_end(cs, i);
        if j <= i || j > cs.len() {
            Seq::empty()
        } else {
            seq![(cs.subrange(i, j), seg_tone(cs.subrange(i, j), cs[i]))] + segments_from(cs, j)
        }
    }
}

pub open spec fn segs_view(v: Seq<(String, Tone)>) -> Seq<(Seq<char>, Tone)> {
    v.map_values(|p: (String, Tone)| (p.0@, p.1))
}

/// The segments glued back together.
pub open spec fn concat_segs(s: Seq<(Seq<char>, Tone)>) -> Seq<char>
    decreases s.len(),
{
    if s.len() == 0 {
        Seq::empty()
    } else {
        concat_segs(s.drop_last()) + s.last().0
    }
}

proof fn lemma_run_end(cs: Seq<char>, i: int, p: spec_fn(char) -> bool)
    requires
        0 <= i <= cs.len(),
    ensures
        i <= run_end(cs, i, p) <= cs.len(),
        forall|k: int| i <= k < run_end(cs, i, p) ==> p(#[trigger] cs[k]),
        run_end(cs, i, p) < cs.len() ==> !p(cs[run_end(cs, i, p)]),
    decreases cs.len() - i,
{
    if i < cs.len() && p(cs[i]) {
        lemma_run_end(cs, i + 1, p);
    }
}

proof fn lemma_seg_end(cs: Seq<char>, i: int)
    requires
        0 <= i < cs.len(),
    ensures
        i < seg_end(cs, i) <= cs.len(),
{
    let c = cs[i];
    if c == ' ' {
        lemma_run_end(cs, i, |x: char| x == ' ');
    } else if c == '"' {
        lemma_run_end(cs, i + 1, |x: char| x != '"');
    } else if ascii_digit(c) {
        lemma_run_end(cs, i, |x: char| ascii_digit(x) || x == '.');
    } else if ident_start(c) {
        lemma_run_end(cs, i + 1, |x: char| ident_continue(x));
    }
}

fn is_keyword(w: &str) -> (r: bool)
    ensures
        r == keyword_word(w@),
{
    str_eq(w, "if") || str_eq(w, "else") || str_eq(w, "while") || str_eq(w, "for") || str_eq(w, "func")
        || str_eq(w, "invocar") || str_eq(w, "in") || str_eq(w, "and") || str_eq(w, "or") || str_eq(w, "not")
        || str_eq(w, "e") || str_eq(w, "ou") || str_eq(w, "nao") || str_eq(w, "true") || str_eq(w, "false")
}

fn is_builtin(w: &str) -> (r: bool)
    ensures
        r == builtin_word(w@),
{
    str_eq(w, "atacar") || str_eq(w, "defender") || str_eq(w, "inspecionar") || str_eq(w, "curar") || str_eq(
        w,
        "esperar",
    ) || str_eq(w, "espada") || str_eq(w, "magia") || str_eq(w, "escudo") || str_eq(w, "pocao") || str_eq(w, "eu")
        || str_eq(w, "inimigo")
}

fn tone_of_word(word: &Vec<char>) -> (r: Tone)
    ensures
        r == word_tone(word@),
{
    let w = string_from(word.as_slice());
    let lower = to_lowercase(w.as_str());
    if is_keyword(lower.as_str()) {
        Tone::Keyword
    } else if word.len() > 0 && is_uppercase(word[0]) {
        Tone::Literal
    } else if is_builtin(w.as_str()) {
        Tone::Keyword
    } else {
        Tone::Plain
    }
}

fn run_end_exec_spaces(cs: &Vec<char>, i: usize) -> (r: usize)
    requires
        i <= cs@.len(),
    ensures
        r == run_end(cs@, i as int, |x: char| x == ' '),
{
    let n = cs.len();
    let mut j = i;
    while j < n && cs[j] == ' '
        invariant
            i <= j <= n,
            n == cs@.len(),
            run_end(cs@, i as int, |x: char| x == ' ') == run_end(cs@, j as int, |x: char| x == ' '),
        decreases n - j,
    {
        j += 1;
    }
    j
}

/// Cuts a line of the editor into coloured segments.
pub fn highlight_line(line: &str) -> (r: Vec<(String, Tone)>)
    ensures
        segs_view(r@) == segments_from(line@, 0),
{
    let cs = chars_of(line);
    let n = cs.len();
    let mut out: Vec<(String, Tone)> = Vec::new();
    let mut i: usize = 0;
    assert(segs_view(out@) =~= Seq::<(Seq<char>, Tone)>::empty());
    while i < n
        invariant
            n == cs@.len(),
            cs@ == line@,
            i <= n,
            segs_view(out@) + segments_from(cs@, i as int) == segments_from(cs@, 0),
        decreases n - i,
    {
        let c = cs[i];
        let ghost spec_end = seg_end(cs@, i as int);
        proof {
            lemma_seg_end(cs@, i as int);
        }
        let mut j: usize = i + 1;
        if c == ' ' {
            j = run_end_exec_spaces(&cs, i);
        } else if c == '"' {
            let mut k = i + 1;
            while k < n && cs[k] != '"'
                invariant
                    i + 1 <= k <= n,
                    n == cs@.len(),
                    run_end(cs@, i + 1, |x: char| x != '"') == run_end(cs@, k as int, |x: char| x != '"'),
                decreases n - k,
            {
                k += 1;
            }
            j = if k < n {
                k + 1
            } else {
                k
            };
        } else if '0' <= c && c <= '9' {
            let mut k = i;
            while k < n && (('0' <= cs[k] && cs[k] <= '9') || cs[k] == '.')
                invariant
                    i <= k <= n,
                    n == cs@.len(),
                    run_end(cs@, i as int, |x: char| ascii_digit(x) || x == '.') == run_end(
                        cs@,
                        k as int,
                        |x: char| ascii_digit(x) || x == '.',
                    ),
                decreases n - k,
            {
                k += 1;
            }
            j = k;
        } else if is_ident_start(c) {
            let mut k = i + 1;
            while k < n && is_ident_continue(cs[k])
                invariant
                    i + 1 <= k <= n,
                    n == cs@.len(),
                    run_end(cs@, i + 1, |x: char| ident_continue(x)) == run_end(
                        cs@,
                        k as int,
                        |x: char| ident_continue(x),
                    ),
                decreases n - k,
            {
                k += 1;
            }
            j = k;
        }
        assert(j == spec_end);
        let mut seg: Vec<char> = Vec::new();
        let mut k = i;
        while k < j
            invariant
                i <= k <= j <= n,
                n == cs@.len(),
                seg@ == cs@.subrange(i as int, k as int),
            decreases j - k,
        {
            seg.push(cs[k]);
            k += 1;
            assert(seg@ =~= cs@.subrange(i as int, k as int));
        }
        let tone = if c == ' ' {
            Tone::Plain
        } else if c == '"' || ('0' <= c && c <= '9') {
            Tone::Literal
        } else if is_ident_start(c) {
            tone_of_word(&seg)
        } else if c == '(' || c == ')' || c == '{' || c == '}' || c == '[' || c == ']' || c == ':' || c == ',' {
            Tone::Punct
        } else {
            Tone::Symbol
        };
        let ghost before = out@;
        out.push((string_from(seg.as_slice()), tone));
        proof {
            assert(segs_view(out@) =~= segs_view(before).push((seg@, tone)));
            assert(segments_from(cs@, i as int) == seq![(seg@, tone)] + segments_from(cs@, j as int));
            assert(segs_view(out@) + segments_from(cs@, j as int) =~= segs_view(before) + segments_from(
                cs@,
                i as int,
            ));
        }
        i = j;
    }
    out
}

/// The segments of a line, glued back together, are the line.
pub proof fn lemma_segments_cover_line(cs: Seq<char>, i: int)
    requires
        0 <= i <= cs.len(),
    ensures
        concat_segs(segments_from(cs, i)) == cs.subrange(i, cs.len() as int),
    decreases cs.len() - i,
{
    if i < cs.len() {
        lemma_seg_end(cs, i);
        let j = seg_end(cs, i);
        lemma_segments_cover_line(cs, j);
        let first = (cs.subrange(i, j), seg_tone(cs.subrange(i, j), cs[i]));
        lemma_concat_prepend(first, segments_from(cs, j));
        assert(cs.subrange(i, j) + cs.subrange(j, cs.len() as int) =~= cs.subrange(i, cs.len() as int));
    } else {
        assert(cs.subrange(i, cs.len() as int) =~= Seq::<char>::empty());
    }
}

proof fn lemma_concat_prepend(x: (Seq<char>, Tone), s: Seq<(Seq<char>, Tone)>)
    ensures
        concat_segs(seq![x] + s) == x.0 + concat_segs(s),
    decreases s.len(),
{
    let t = seq![x] + s;
    if s.len() == 0 {
        assert(t =~= seq![x]);
        assert(t.drop_last() =~= Seq::<(Seq<char>, Tone)>::empty());
        assert(concat_segs(t) == concat_segs(t.drop_last()) + t.last().0);
        assert(concat_segs(t.drop_last()) == Seq::<char>::empty());
        assert(concat_segs(t) =~= x.0);
        assert(x.0 + concat_segs(s) =~= x.0);
    } else {
        lemma_concat_prepend(x, s.drop_last());
        assert(t.drop_last() =~= seq![x] + s.drop_last());
        assert(t.last() == s.last());
        assert(concat_segs(t) == concat_segs(t.drop_last()) + t.last().0);
        assert(concat_segs(s) == concat_segs(s.drop_last()) + s.last().0);
        assert(x.0 + concat_segs(s.drop_last()) + s.last().0 =~= x.0 + (concat_segs(s.drop_last()) + s.last().0));
    }
}

} // verus!
