//! Greedy word wrapping of the screens' prose, by a width counted in bytes
//! of UTF-8 text: a word goes to a new line when it would not fit on the
//! current one; words are never split.

use vstd::prelude::*;
use crate::text::{char_whitespace, chars_of, is_whitespace, string_from};

verus! {

/// The number of bytes of `c` in UTF-8.
pub open spec fn utf8_len(c: char) -> nat {
    if (c as u32) < 0x80 {
        1
    } else if (c as u32) < 0x800 {
        2
    } else if (c as u32) < 0x10000 {
        3
    } else {
        4
    }
}

/// The number of bytes of the text in UTF-8.
pub open spec fn byte_len(s: Seq<char>) -> nat
    decreases s.len(),
{
    if s.len() == 0 {
        0
    } else {
        byte_len(s.drop_last()) + utf8_len(s.last())
    }
}

/// The end of the run of white space (`ws` true) or of other characters
/// (`ws` false) that starts at `i`.
pub open spec fn class_end(s: Seq<char>, i: int, ws: bool) -> int
    decreases s.len() - i,
{
    if 0 <= i < s.len() && char_whitespace(s[i]) == ws {
        class_end(s, i + 1, ws)
    } else {
        i
    }
}

/// The words of the text from `i` on: the runs of characters that are not
/// white space.
pub open spec fn words_from(s: Seq<char>, i: int) -> Seq<Seq<char>>
    decreases s.len() - i,
{
    let a = class_end(s, i, true);
    if i < 0 || a >= s.len() || a < i {
        Seq::empty()
    } else {
        let b = class_end(s, a, false);
        if b <= a || b > s.len() {
            Seq::empty()
        } else {
            seq![s.subrange(a, b)] + words_from(s, b)
        }
    }
}

/// One word more: when it does not fit after the current line (a space and
/// the word, counted in bytes), the current line is closed first.
pub open spec fn wrap_step(st: (Seq<Seq<char>>, Seq<char>), w: Seq<char>, max: nat) -> (Seq<Seq<char>>, Seq<char>) {
    let (lines, cur) = st;
    let closes = byte_len(cur) + byte_len(w) + 1 > max && cur.len() > 0;
    let lines1 = if closes {
        lines.push(cur)
    } else {
        lines
    };
    let cur1 = if closes {
        Seq::empty()
    } else {
        cur
    };
    (lines1, if cur1.len() > 0 {
        cur1 + seq![' '] + w
    } else {
        w
    })
}

pub open spec fn wrap_fold(ws: Seq<Seq<char>>, max: nat) -> (Seq<Seq<char>>, Seq<char>)
    decreases ws.len(),
{
    if ws.len() == 0 {
        (Seq::empty(), Seq::empty())
    } else {
        wrap_step(wrap_fold(ws.drop_last(), max), ws.last(), max)
    }
}

/// The wrapped lines of the text.
pub open spec fn wrap_spec(text: Seq<char>, max: nat) -> Seq<Seq<char>> {
    let (lines, cur) = wrap_fold(words_from(text, 0), max);
    if cur.len() > 0 {
        lines.push(cur)
    } else {
        lines
    }
}

fn utf8_len_of(c: char) -> (r: usize)
    ensures
        r == utf8_len(c),
{
    let v = c as u32;
    if v < 0x80 {
        1
    } else if v < 0x800 {
        2
    } else if v < 0x10000 {
        3
    } else {
        4
    }
}

proof fn lemma_byte_len_push(s: Seq<char>, c: char)
    ensures
        byte_len(s.push(c)) == byte_len(s) + utf8_len(c),
{
    assert(s.push(c).drop_last() =~= s);
}

proof fn lemma_byte_len_concat(a: Seq<char>, b: Seq<char>)
    ensures
        byte_len(a + b) == byte_len(a) + byte_len(b),
    decreases b.len(),
{
    if b.len() == 0 {
        assert(a + b =~= a);
    } else {
        lemma_byte_len_concat(a, b.drop_last());
        assert((a + b).drop_last() =~= a + b.drop_last());
    }
}

proof fn lemma_byte_len_bound(s: Seq<char>)
    ensures
        byte_len(s) <= 4 * s.len(),
    decreases s.len(),
{
    if s.len() > 0 {
        lemma_byte_len_bound(s.drop_last());
    }
}

proof fn lemma_class_end(s: Seq<char>, i: int, ws: bool)
    requires
        0 <= i <= s.len(),
    ensures
        i <= class_end(s, i, ws) <= s.len(),
        class_end(s, i, ws) < s.len() ==> char_whitespace(s[class_end(s, i, ws)]) != ws,
    decreases s.len() - i,
{
    if i < s.len() && char_whitespace(s[i]) == ws {
        lemma_class_end(s, i + 1, ws);
    }
}

fn class_end_exec(cs: &Vec<char>, i: usize, ws: bool) -> (r: usize)
    requires
        i <= cs@.len(),
    ensures
        r == class_end(cs@, i as int, ws),
        i <= r <= cs@.len(),
{
    proof {
        lemma_class_end(cs@, i as int, ws);
    }
    let n = cs.len();
    let mut j = i;
    while j < n && is_whitespace(cs[j]) == ws
        invariant
            i <= j <= n,
            n == cs@.len(),
            class_end(cs@, i as int, ws) == class_end(cs@, j as int, ws),
        decreases n - j,
    {
        j += 1;
    }
    j
}

/// Wraps the text into lines of at most `max_chars` bytes, words kept
/// whole (a word longer than the width stands alone on its line).
pub fn wrap_text(text: &str, max_chars: usize) -> (r: Vec<String>)
    requires
        text@.len() * 4 < usize::MAX,
    ensures
        r@.map_values(|s: String| s@) == wrap_spec(text@, max_chars as nat),
{
    let cs = chars_of(text);
    let n = cs.len();
    let mut lines: Vec<String> = Vec::new();
    let mut current: Vec<char> = Vec::new();
    let mut cur_bytes: usize = 0;
    let ghost mut done: Seq<Seq<char>> = Seq::empty();
    let mut i: usize = 0;
    proof {
        lemma_byte_len_bound(cs@);
    }
    while i < n
        invariant
            n == cs@.len(),
            cs@ == text@,
            n * 4 < usize::MAX,
            i <= n,
            words_from(cs@, 0) == done + words_from(cs@, i as int),
            wrap_fold(done, max_chars as nat) == (lines@.map_values(|s: String| s@), current@),
            cur_bytes == byte_len(current@),
            current@.len() <= i,
            current@.len() > 0 ==> i > 0,
            (current@.len() > 0 && i < n) ==> char_whitespace(cs@[i as int]),
        decreases n - i,
    {
        let a = class_end_exec(&cs, i, true);
        if a >= n {
            proof {
                assert(words_from(cs@, i as int) =~= Seq::<Seq<char>>::empty());
                assert(done + words_from(cs@, i as int) =~= done);
            }
            i = n;
            assert(words_from(cs@, n as int) =~= Seq::<Seq<char>>::empty());
            assert(done + words_from(cs@, n as int) =~= done);
        } else {
            let b = class_end_exec(&cs, a, false);
            proof {
                lemma_class_end(cs@, i as int, true);
                assert(!char_whitespace(cs@[a as int]));
                lemma_class_end(cs@, a as int, false);
                lemma_class_end(cs@, a + 1, false);
                assert(class_end(cs@, a as int, false) == class_end(cs@, a + 1, false));
            }
            assert(b > a);
            let mut word: Vec<char> = Vec::new();
            let mut word_bytes: usize = 0;
            let mut k = a;
            while k < b
                invariant
                    a <= k <= b <= n,
                    n == cs@.len(),
                    n * 4 < usize::MAX,
                    word@ == cs@.subrange(a as int, k as int),
                    word_bytes == byte_len(word@),
                    byte_len(word@) <= 4 * (k - a),
                decreases b - k,
            {
                proof {
                    lemma_byte_len_push(word@, cs@[k as int]);
                }
                word_bytes = word_bytes + utf8_len_of(cs[k]);
                word.push(cs[k]);
                k += 1;
                assert(word@ =~= cs@.subrange(a as int, k as int));
            }
            proof {
                lemma_byte_len_bound(current@);
                lemma_class_end(cs@, i as int, true);
                if b < n {
                    assert(char_whitespace(cs@[b as int]));
                }
            }
            let closes = !current.is_empty() && (cur_bytes >= max_chars || word_bytes >= max_chars - cur_bytes);
            assert(closes == (byte_len(current@) + byte_len(word@) + 1 > max_chars && current@.len() > 0));
            if closes {
                let ghost before = lines@;
                lines.push(string_from(current.as_slice()));
                assert(lines@.map_values(|s: String| s@) =~= before.map_values(|s: String| s@).push(current@));
                current = Vec::new();
                cur_bytes = 0;
            }
            if current.len() > 0 {
                proof {
                    lemma_byte_len_push(current@, ' ');
                    lemma_byte_len_concat(current@.push(' '), word@);
                }
                current.push(' ');
                cur_bytes = cur_bytes + 1;
                let ghost c1 = current@;
                let ghost w_old = word@;
                current.append(&mut word);
                assert(current@ =~= c1 + w_old);
                cur_bytes = cur_bytes + word_bytes;
            } else {
                current = word;
                cur_bytes = word_bytes;
            }
            proof {
                let ghost w = cs@.subrange(a as int, b as int);
                assert(words_from(cs@, i as int) == seq![w] + words_from(cs@, b as int));
                assert((done.push(w)).drop_last() =~= done);
                assert(done + words_from(cs@, i as int) =~= done.push(w) + words_from(cs@, b as int));
                done = done.push(w);
            }
            i = b;
        }
    }
    if current.len() > 0 {
        let ghost before = lines@;
        lines.push(string_from(current.as_slice()));
        assert(lines@.map_values(|s: String| s@) =~= before.map_values(|s: String| s@).push(current@));
    }
    assert(words_from(cs@, 0) =~= done);
    lines
}

/// The words of the text, as `str::split_whitespace` gives them.
pub fn split_words(cs: &Vec<char>) -> (r: Vec<Vec<char>>)
    ensures
        r@.map_values(|w: Vec<char>| w@) == words_from(cs@, 0),
{
    let n = cs.len();
    let mut out: Vec<Vec<char>> = Vec::new();
    let mut i: usize = 0;
    assert(out@.map_values(|w: Vec<char>| w@) =~= Seq::<Seq<char>>::empty());
    while i < n
        invariant
            n == cs@.len(),
            i <= n,
            words_from(cs@, 0) == out@.map_values(|w: Vec<char>| w@) + words_from(cs@, i as int),
        decreases n - i,
    {
        let a = class_end_exec(cs, i, true);
        if a >= n {
            assert(words_from(cs@, i as int) =~= Seq::<Seq<char>>::empty());
            assert(words_from(cs@, n as int) =~= Seq::<Seq<char>>::empty());
            i = n;
        } else {
            let b = class_end_exec(cs, a, false);
            proof {
                lemma_class_end(cs@, i as int, true);
                lemma_class_end(cs@, a as int, false);
                lemma_class_end(cs@, a + 1, false);
                assert(class_end(cs@, a as int, false) == class_end(cs@, a + 1, false));
            }
            let mut word: Vec<char> = Vec::new();
            let mut k = a;
            while k < b
                invariant
                    a <= k <= b <= n,
                    n == cs@.len(),
                    word@ == cs@.subrange(a as int, k as int),
                decreases b - k,
            {
                word.push(cs[k]);
                k += 1;
                assert(word@ =~= cs@.subrange(a as int, k as int));
            }
            let ghost before = out@;
            out.push(word);
            proof {
                assert(out@.map_values(|w: Vec<char>| w@) =~= before.map_values(|w: Vec<char>| w@).push(
                    cs@.subrange(a as int, b as int),
                ));
                assert(words_from(cs@, i as int) == seq![cs@.subrange(a as int, b as int)] + words_from(cs@, b as int));
            }
            i = b;
        }
    }
    out
}

} // verus!
