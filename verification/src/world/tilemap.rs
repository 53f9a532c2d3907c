//! The tile map of the overworld, read from a plain text format:
//!
//! ```text
//! <columns> <rows>
//! <row 0, one character per column: 0 = floor, 1 = wall>
//! <row 1>
//! ...
//! ```

use vstd::prelude::*;
use crate::numtext::{nat_digits, u64_text};
use crate::text::{char_whitespace, chars_of, push_chars, push_str, string_from};
use crate::ui::code_editor::{first_nl, lemma_first_nl_at, lemma_first_nl_none};
use crate::ui::wrap::{split_words, words_from};

verus! {

#[derive(Clone, Copy, PartialEq, Eq, Debug, Structural)]
pub enum Tile {
    Floor,
    Wall,
}

impl Tile {
    pub fn has_collision(self) -> (r: bool)
        ensures
            r == (self == Tile::Wall),
    {
        match self {
            Tile::Wall => true,
            Tile::Floor => false,
        }
    }
}

#[derive(Debug)]
pub struct TileMap {
    pub cols: usize,
    pub rows: usize,
    /// row by row; read with `tile_at`
    pub tiles: Vec<Vec<Tile>>,
}

#[derive(Debug, PartialEq)]
pub enum MapError {
    Io(String),
    EmptyFile,
    BadHeader(String),
    RowCountMismatch { expected: usize, found: usize },
    RowLengthMismatch { row: usize, expected: usize, found: usize },
    UnknownTile { row: usize, col: usize, ch: char },
}

/// A line without the carriage return that ended it.
pub open spec fn strip_cr(l: Seq<char>) -> Seq<char> {
    if l.len() > 0 && l.last() == '\r' {
        l.drop_last()
    } else {
        l
    }
}

/// The lines of a text as `str::lines` gives them: cut at `\n`, a `\r`
/// before the `\n` dropped, no empty line after a final line break.
pub open spec fn text_lines(s: Seq<char>) -> Seq<Seq<char>>
    decreases s.len(),
{
    if s.len() == 0 {
        Seq::empty()
    } else {
        let i = first_nl(s);
        if i >= s.len() {
            seq![s]
        } else {
            seq![strip_cr(s.take(i as int))] + text_lines(s.skip(i + 1int))
        }
    }
}

pub open spec fn digits_value(d: Seq<char>) -> nat
    decreases d.len(),
{
    if d.len() == 0 {
        0
    } else {
        digits_value(d.drop_last()) * 10 + (d.last() as nat - '0' as nat) as nat
    }
}

pub open spec fn all_digits(d: Seq<char>) -> bool {
    forall|i: int| 0 <= i < d.len() ==> '0' <= #[trigger] d[i] <= '9'
}

/// A decimal number as `usize::from_str` reads it: an optional `+`, then
/// at least one digit and nothing else, within `usize`.
pub open spec fn parse_usize_spec(w: Seq<char>) -> Option<nat> {
    let d = if w.len() > 0 && w[0] == '+' {
        w.skip(1)
    } else {
        w
    };
    if d.len() == 0 || !all_digits(d) || digits_value(d) > usize::MAX {
        None
    } else {
        Some(digits_value(d))
    }
}

pub enum MapErrSpec {
    EmptyFile,
    BadHeader(Seq<char>),
    RowCountMismatch(nat, nat),
    RowLengthMismatch(nat, nat, nat),
    UnknownTile(nat, nat, char),
}

pub open spec fn tile_of(c: char) -> Option<Tile> {
    if c == '0' {
        Some(Tile::Floor)
    } else if c == '1' {
        Some(Tile::Wall)
    } else {
        None
    }
}

/// The tiles of a row from column `k` on, or the first unknown character.
pub open spec fn row_tiles(line: Seq<char>, k: nat) -> Result<Seq<Tile>, (nat, char)>
    decreases line.len() - k,
{
    if k >= line.len() {
        Ok(Seq::empty())
    } else {
        match tile_of(line[k as int]) {
            None => Err((k, line[k as int])),
            Some(t) => match row_tiles(line, k + 1) {
                Ok(rest) => Ok(seq![t] + rest),
                Err(e) => Err(e),
            },
        }
    }
}

/// A row's tiles are its characters read one by one: `1` is a wall (which
/// collides), `0` is floor, and any other character is refused at its
/// column, the first such one.
pub proof fn lemma_row_tiles_follow_the_characters(line: Seq<char>, k: nat)
    ensures
        row_tiles(line, k) is Ok ==> {
            let ts = row_tiles(line, k)->Ok_0;
            &&& ts.len() == if k <= line.len() { line.len() - k } else { 0 }
            &&& forall|i: int| 0 <= i < ts.len() ==> (#[trigger] ts[i] == Tile::Wall <==> line[k + i] == '1')
            &&& forall|i: int| 0 <= i < ts.len() ==> (#[trigger] ts[i] == Tile::Floor <==> line[k + i] == '0')
        },
        row_tiles(line, k) is Err ==> {
            let (col, ch) = row_tiles(line, k)->Err_0;
            &&& k <= col < line.len()
            &&& line[col as int] == ch
            &&& ch != '0' && ch != '1'
            &&& forall|j: int| k <= j < col ==> (#[trigger] line[j] == '0' || line[j] == '1')
        },
    decreases line.len() - k,
{
    if k < line.len() {
        lemma_row_tiles_follow_the_characters(line, k + 1);
        if row_tiles(line, k) is Ok {
            let ts = row_tiles(line, k)->Ok_0;
            let rest = row_tiles(line, k + 1)->Ok_0;
            assert(ts == seq![tile_of(line[k as int])->Some_0] + rest);
            assert forall|i: int| 0 <= i < ts.len() implies (#[trigger] ts[i] == Tile::Wall <==> line[k + i] == '1') by {
                if i > 0 {
                    assert(ts[i] == rest[i - 1]);
                }
            }
            assert forall|i: int| 0 <= i < ts.len() implies (#[trigger] ts[i] == Tile::Floor <==> line[k + i] == '0') by {
                if i > 0 {
                    assert(ts[i] == rest[i - 1]);
                }
            }
        }
    }
}

/// The grid made of the first `n` rows after the header.
pub open spec fn grid_upto(body: Seq<Seq<char>>, n: nat, cols: nat) -> Result<Seq<Seq<Tile>>, MapErrSpec>
    decreases n,
{
    if n == 0 {
        Ok(Seq::empty())
    } else {
        match grid_upto(body, (n - 1) as nat, cols) {
            Err(e) => Err(e),
            Ok(g) => {
                let row = (n - 1) as nat;
                let line = body[row as int];
                if line.len() != cols {
                    Err(MapErrSpec::RowLengthMismatch(row, cols, line.len()))
                } else {
                    match row_tiles(line, 0) {
                        Err((col, ch)) => Err(MapErrSpec::UnknownTile(row, col, ch)),
                        Ok(ts) => Ok(g.push(ts)),
                    }
                }
            },
        }
    }
}

pub open spec fn min_nat(a: nat, b: nat) -> nat {
    if a < b {
        a
    } else {
        b
    }
}

/// What the map text gives: the number of columns and of rows and the
/// grid, or the first error found.
pub open spec fn parse_spec(s: Seq<char>) -> Result<(nat, nat, Seq<Seq<Tile>>), MapErrSpec> {
    let ls = text_lines(s);
    if ls.len() == 0 {
        Err(MapErrSpec::EmptyFile)
    } else {
        let header = ls[0];
        let ws = words_from(header, 0);
        let c = if ws.len() > 0 {
            parse_usize_spec(ws[0])
        } else {
            None
        };
        let r = if ws.len() > 1 {
            parse_usize_spec(ws[1])
        } else {
            None
        };
        if c is None || r is None {
            Err(MapErrSpec::BadHeader(header))
        } else {
            let cols = c->Some_0;
            let rows = r->Some_0;
            let body = ls.skip(1);
            match grid_upto(body, min_nat(rows, body.len()), cols) {
                Err(e) => Err(e),
                Ok(g) => if g.len() != rows {
                    Err(MapErrSpec::RowCountMismatch(rows, g.len()))
                } else {
                    Ok((cols, rows, g))
                },
            }
        }
    }
}

proof fn lemma_lines_at_nl(cur: Seq<char>, rest: Seq<char>)
    requires
        forall|j: int| 0 <= j < cur.len() ==> cur[j] != '\n',
        rest.len() > 0,
        rest[0] == '\n',
    ensures
        text_lines(cur + rest) == seq![strip_cr(cur)] + text_lines(rest.skip(1)),
{
    lemma_first_nl_at(cur, rest);
    let s = cur + rest;
    assert(s.take(cur.len() as int) =~= cur);
    assert(s.skip(cur.len() + 1int) =~= rest.skip(1));
}

proof fn lemma_lines_end(cur: Seq<char>)
    requires
        forall|j: int| 0 <= j < cur.len() ==> cur[j] != '\n',
    ensures
        text_lines(cur) == (if cur.len() == 0 {
            Seq::<Seq<char>>::empty()
        } else {
            seq![cur]
        }),
{
    lemma_first_nl_none(cur);
}

fn lines_of(text: &str) -> (r: Vec<Vec<char>>)
    ensures
        r@.map_values(|l: Vec<char>| l@) == text_lines(text@),
{
    let cs = chars_of(text);
    let n = cs.len();
    let mut out: Vec<Vec<char>> = Vec::new();
    let mut cur: Vec<char> = Vec::new();
    let mut i: usize = 0;
    assert(cur@ + cs@.skip(0) =~= cs@);
    assert(out@.map_values(|l: Vec<char>| l@) =~= Seq::<Seq<char>>::empty());
    while i < n
        invariant
            n == cs@.len(),
            i <= n,
            cs@ == text@,
            forall|j: int| 0 <= j < cur@.len() ==> cur@[j] != '\n',
            out@.map_values(|l: Vec<char>| l@) + text_lines(cur@ + cs@.skip(i as int)) == text_lines(text@),
        decreases n - i,
    {
        let c = cs[i];
        proof {
            assert(cs@.skip(i as int).skip(1) =~= cs@.skip(i + 1));
            assert(cs@.skip(i as int)[0] == c);
        }
        if c == '\n' {
            proof {
                lemma_lines_at_nl(cur@, cs@.skip(i as int));
            }
            let mut line = cur;
            let len = line.len();
            if len > 0 && line[len - 1] == '\r' {
                line.pop();
                assert(line@ =~= strip_cr(cur@));
            }
            let ghost before = out@;
            out.push(line);
            assert(out@.map_values(|l: Vec<char>| l@) =~= before.map_values(|l: Vec<char>| l@).push(strip_cr(cur@)));
            cur = Vec::new();
            assert(cur@ + cs@.skip(i + 1) =~= cs@.skip(i + 1));
        } else {
            let ghost old_cur = cur@;
            cur.push(c);
            assert(old_cur + cs@.skip(i as int) =~= cur@ + cs@.skip(i + 1));
        }
        i += 1;
    }
    proof {
        assert(cur@ + cs@.skip(n as int) =~= cur@);
        lemma_lines_end(cur@);
    }
    if cur.len() > 0 {
        let ghost before = out@;
        let ghost last = cur@;
        out.push(cur);
        assert(out@.map_values(|l: Vec<char>| l@) =~= before.map_values(|l: Vec<char>| l@).push(last));
    } else {
        assert(out@.map_values(|l: Vec<char>| l@) + Seq::<Seq<char>>::empty() =~= out@.map_values(
            |l: Vec<char>| l@,
        ));
    }
    out
}

proof fn lemma_digits_prefix(d: Seq<char>, k: int)
    requires
        0 <= k <= d.len(),
        all_digits(d),
    ensures
        digits_value(d.take(k)) <= digits_value(d),
    decreases d.len() - k,
{
    if k < d.len() {
        lemma_digits_prefix(d, k + 1);
        assert(d.take(k + 1).drop_last() =~= d.take(k));
        assert('0' <= d[k] <= '9');
    } else {
        assert(d.take(k) =~= d);
    }
}

/// A decimal `usize`, as `usize::from_str` reads it.
pub fn parse_usize(w: &Vec<char>) -> (r: Option<usize>)
    ensures
        match (r, parse_usize_spec(w@)) {
            (Some(a), Some(b)) => a == b,
            (None, None) => true,
            _ => false,
        },
{
    let n = w.len();
    let start: usize = if n > 0 && w[0] == '+' {
        1
    } else {
        0
    };
    let ghost d = if n > 0 && w@[0] == '+' {
        w@.skip(1)
    } else {
        w@
    };
    assert(d =~= w@.skip(start as int));
    let ghost verdict = if d.len() == 0 || !all_digits(d) || digits_value(d) > usize::MAX {
        None
    } else {
        Some(digits_value(d))
    };
    assert(parse_usize_spec(w@) == verdict);
    if start >= n {
        return None;
    }
    let mut i = start;
    while i < n
        invariant
            start <= i <= n,
            n == w@.len(),
            d == w@.skip(start as int),
            parse_usize_spec(w@) == verdict,
            verdict == (if d.len() == 0 || !all_digits(d) || digits_value(d) > usize::MAX {
                None
            } else {
                Some(digits_value(d))
            }),
            forall|j: int| start <= j < i ==> '0' <= #[trigger] w@[j] <= '9',
        decreases n - i,
    {
        if w[i] < '0' || w[i] > '9' {
            assert(d[i - start] == w@[i as int]);
            assert(!all_digits(d));
            return None;
        }
        i += 1;
    }
    assert(all_digits(d)) by {
        assert forall|j: int| 0 <= j < d.len() implies '0' <= #[trigger] d[j] <= '9' by {
            assert(d[j] == w@[j + start]);
        }
    }
    let mut v: usize = 0;
    let mut k = start;
    while k < n
        invariant
            start <= k <= n,
            n == w@.len(),
            d == w@.skip(start as int),
            parse_usize_spec(w@) == verdict,
            verdict == (if d.len() == 0 || !all_digits(d) || digits_value(d) > usize::MAX {
                None
            } else {
                Some(digits_value(d))
            }),
            all_digits(d),
            v == digits_value(d.take(k - start)),
        decreases n - k,
    {
        proof {
            assert(d.take(k - start + 1).drop_last() =~= d.take(k - start));
            assert(d.take(k - start + 1).last() == d[k - start]);
            assert(d[k - start] == w@[k as int]);
            assert('0' <= d[k - start] <= '9');
        }
        let digit = (w[k] as u32 - '0' as u32) as usize;
        assert(digits_value(d.take(k - start + 1)) == v * 10 + digit);
        match v.checked_mul(10) {
            Some(t) => match t.checked_add(digit) {
                Some(u) => {
                    v = u;
                },
                None => {
                    proof {
                        lemma_digits_prefix(d, k - start + 1);
                    }
                    return None;
                },
            },
            None => {
                proof {
                    lemma_digits_prefix(d, k - start + 1);
                }
                return None;
            },
        }
        k += 1;
    }
    assert(d.take(n - start) =~= d);
    Some(v)
}

pub open spec fn prepend(acc: Seq<Tile>, r: Result<Seq<Tile>, (nat, char)>) -> Result<Seq<Tile>, (nat, char)> {
    match r {
        Ok(rest) => Ok(acc + rest),
        Err(e) => Err(e),
    }
}

fn parse_row(line: &Vec<char>) -> (r: Result<Vec<Tile>, (usize, char)>)
    ensures
        match (r, row_tiles(line@, 0)) {
            (Ok(v), Ok(ts)) => v@ == ts,
            (Err((c, ch)), Err((c2, ch2))) => c == c2 && ch == ch2,
            _ => false,
        },
{
    let n = line.len();
    let mut acc: Vec<Tile> = Vec::new();
    let mut k: usize = 0;
    assert(prepend(acc@, row_tiles(line@, 0)) =~= row_tiles(line@, 0)) by {
        match row_tiles(line@, 0) {
            Ok(rest) => {
                assert(acc@ + rest =~= rest);
            },
            Err(_) => {},
        }
    }
    while k < n
        invariant
            n == line@.len(),
            k <= n,
            prepend(acc@, row_tiles(line@, k as nat)) == row_tiles(line@, 0),
        decreases n - k,
    {
        let c = line[k];
        if c == '0' {
            proof {
                lemma_prepend_step(acc@, Tile::Floor, row_tiles(line@, (k + 1) as nat));
            }
            acc.push(Tile::Floor);
        } else if c == '1' {
            proof {
                lemma_prepend_step(acc@, Tile::Wall, row_tiles(line@, (k + 1) as nat));
            }
            acc.push(Tile::Wall);
        } else {
            return Err((k, c));
        }
        k += 1;
    }
    assert(acc@ + Seq::<Tile>::empty() =~= acc@);
    Ok(acc)
}

proof fn lemma_prepend_step(acc: Seq<Tile>, t: Tile, r: Result<Seq<Tile>, (nat, char)>)
    ensures
        prepend(acc, prepend(seq![t], r)) == prepend(acc.push(t), r),
{
    match r {
        Ok(rest) => {
            assert(acc + (seq![t] + rest) =~= acc.push(t) + rest);
        },
        Err(_) => {},
    }
}

proof fn lemma_grid_err_stays(body: Seq<Seq<char>>, i: nat, n: nat, cols: nat)
    requires
        i <= n,
    ensures
        grid_upto(body, i, cols) is Err ==> grid_upto(body, n, cols) == grid_upto(body, i, cols),
    decreases n - i,
{
    if i < n {
        lemma_grid_err_stays(body, i, (n - 1) as nat, cols);
    }
}

proof fn lemma_row_len(line: Seq<char>, k: nat)
    requires
        k <= line.len(),
    ensures
        row_tiles(line, k) matches Ok(ts) ==> ts.len() == line.len() - k,
    decreases line.len() - k,
{
    if k < line.len() {
        lemma_row_len(line, k + 1);
    }
}

pub open spec fn grid_view(tiles: Seq<Vec<Tile>>) -> Seq<Seq<Tile>> {
    tiles.map_values(|row: Vec<Tile>| row@)
}

/// Whether an error of the map is the one the specification names.
pub open spec fn err_matches(e: MapError, es: MapErrSpec) -> bool {
    match (e, es) {
        (MapError::EmptyFile, MapErrSpec::EmptyFile) => true,
        (MapError::BadHeader(h), MapErrSpec::BadHeader(h2)) => h@ == h2,
        (MapError::RowCountMismatch { expected, found }, MapErrSpec::RowCountMismatch(a, b)) => expected == a
            && found == b,
        (MapError::RowLengthMismatch { row, expected, found }, MapErrSpec::RowLengthMismatch(a, b, c)) => row == a
            && expected == b && found == c,
        (MapError::UnknownTile { row, col, ch }, MapErrSpec::UnknownTile(a, b, c)) => row == a && col == b && ch
            == c,
        _ => false,
    }
}

impl TileMap {
    /// The grid, row by row.
    pub open spec fn grid(&self) -> Seq<Seq<Tile>> {
        grid_view(self.tiles@)
    }

    /// Every row has `cols` tiles and there are `rows` of them.
    pub open spec fn wf(&self) -> bool {
        &&& self.grid().len() == self.rows
        &&& forall|r: int| 0 <= r < self.rows ==> (#[trigger] self.grid()[r]).len() == self.cols
    }

    /// Reads a map from its text.
    pub fn parse(text: &str) -> (r: Result<TileMap, MapError>)
        ensures
            match (r, parse_spec(text@)) {
                (Ok(m), Ok((c, rows, g))) => m.cols == c && m.rows == rows && m.grid() == g && m.wf(),
                (Err(e), Err(es)) => err_matches(e, es),
                _ => false,
            },
    {
        let ls = lines_of(text);
        let ghost lsv = ls@.map_values(|l: Vec<char>| l@);
        if ls.len() == 0 {
            return Err(MapError::EmptyFile);
        }
        assert(lsv[0] == ls@[0]@);
        let words = split_words(&ls[0]);
        let ghost wv = words@.map_values(|w: Vec<char>| w@);
        let cols = if words.len() > 0 {
            assert(wv[0] == words@[0]@);
            parse_usize(&words[0])
        } else {
            None
        };
        let rows = if words.len() > 1 {
            assert(wv[1] == words@[1]@);
            parse_usize(&words[1])
        } else {
            None
        };
        let (c, rw) = match (cols, rows) {
            (Some(c), Some(rw)) => (c, rw),
            _ => {
                return Err(MapError::BadHeader(string_from(ls[0].as_slice())));
            },
        };
        let ghost body = lsv.skip(1);
        let body_len = ls.len() - 1;
        let take = if rw < body_len {
            rw
        } else {
            body_len
        };
        let mut tiles: Vec<Vec<Tile>> = Vec::new();
        let mut row: usize = 0;
        assert(grid_view(tiles@) =~= Seq::<Seq<Tile>>::empty());
        let ghost outcome = match grid_upto(body, take as nat, c as nat) {
            Err(e) => Err(e),
            Ok(g) => if g.len() != rw {
                Err(MapErrSpec::RowCountMismatch(rw as nat, g.len()))
            } else {
                Ok((c as nat, rw as nat, g))
            },
        };
        assert(parse_spec(text@) == outcome);
        while row < take
            invariant
                parse_spec(text@) == outcome,
                outcome == match grid_upto(body, take as nat, c as nat) {
                    Err(e) => Err(e),
                    Ok(g) => if g.len() != rw {
                        Err(MapErrSpec::RowCountMismatch(rw as nat, g.len()))
                    } else {
                        Ok((c as nat, rw as nat, g))
                    },
                },
                take <= body_len,
                body_len == ls@.len() - 1,
                lsv == ls@.map_values(|l: Vec<char>| l@),
                body == lsv.skip(1),
                row <= take,
                grid_upto(body, row as nat, c as nat) == Ok::<Seq<Seq<Tile>>, MapErrSpec>(grid_view(tiles@)),
                grid_view(tiles@).len() == row,
                forall|r: int| 0 <= r < row ==> (#[trigger] grid_view(tiles@)[r]).len() == c,
            decreases take - row,
        {
            let line = &ls[row + 1];
            assert(body[row as int] == line@);
            proof {
                lemma_grid_err_stays(body, (row + 1) as nat, take as nat, c as nat);
            }
            if line.len() != c {
                return Err(MapError::RowLengthMismatch { row, expected: c, found: line.len() });
            }
            match parse_row(line) {
                Err((col, ch)) => {
                    return Err(MapError::UnknownTile { row, col, ch });
                },
                Ok(ts) => {
                    proof {
                        lemma_row_len(line@, 0);
                    }
                    let ghost before = tiles@;
                    let ghost tv = ts@;
                    tiles.push(ts);
                    assert(grid_view(tiles@) =~= grid_view(before).push(tv));
                },
            }
            row += 1;
        }
        if tiles.len() != rw {
            return Err(MapError::RowCountMismatch { expected: rw, found: tiles.len() });
        }
        Ok(TileMap { cols: c, rows: rw, tiles })
    }

    /// The tile at a row and a column of the map.
    pub fn tile_at(&self, row: usize, col: usize) -> (r: Tile)
        requires
            self.wf(),
            row < self.rows,
            col < self.cols,
        ensures
            r == self.grid()[row as int][col as int],
    {
        assert(self.grid()[row as int] == self.tiles@[row as int]@);
        self.tiles[row][col]
    }
}

/// The text that tells the player what is wrong with the map.
pub open spec fn map_error_text(e: MapError) -> Seq<char> {
    match e {
        MapError::Io(m) => "nao foi possivel abrir o mapa: "@ + m@,
        MapError::EmptyFile => "arquivo de mapa vazio"@,
        MapError::BadHeader(h) => "cabecalho invalido: '"@ + h@ + "' (esperado 'colunas linhas')"@,
        MapError::RowCountMismatch { expected, found } => "numero de linhas errado: esperado "@ + nat_digits(
            expected as nat,
        ) + ", encontrado "@ + nat_digits(found as nat),
        MapError::RowLengthMismatch { row, expected, found } => "linha "@ + nat_digits(row as nat) + " tem "@
            + nat_digits(found as nat) + " colunas, esperado "@ + nat_digits(expected as nat),
        MapError::UnknownTile { row, col, ch } => "tile desconhecido '"@ + seq![ch] + "' em ("@ + nat_digits(
            row as nat,
        ) + ", "@ + nat_digits(col as nat) + ")"@,
    }
}

fn push_count(out: &mut String, n: usize)
    ensures
        final(out)@ == old(out)@ + nat_digits(n as nat),
{
    let t = u64_text(n as u64);
    push_chars(out, t.as_slice());
}

impl MapError {
    pub fn message(&self) -> (r: String)
        ensures
            r@ == map_error_text(*self),
    {
        let mut m = String::new();
        match self {
            MapError::Io(e) => {
                push_str(&mut m, "nao foi possivel abrir o mapa: ");
                push_str(&mut m, e.as_str());
            },
            MapError::EmptyFile => {
                push_str(&mut m, "arquivo de mapa vazio");
            },
            MapError::BadHeader(h) => {
                push_str(&mut m, "cabecalho invalido: '");
                push_str(&mut m, h.as_str());
                push_str(&mut m, "' (esperado 'colunas linhas')");
            },
            MapError::RowCountMismatch { expected, found } => {
                push_str(&mut m, "numero de linhas errado: esperado ");
                push_count(&mut m, *expected);
                push_str(&mut m, ", encontrado ");
                push_count(&mut m, *found);
            },
            MapError::RowLengthMismatch { row, expected, found } => {
                push_str(&mut m, "linha ");
                push_count(&mut m, *row);
                push_str(&mut m, " tem ");
                push_count(&mut m, *found);
                push_str(&mut m, " colunas, esperado ");
                push_count(&mut m, *expected);
            },
            MapError::UnknownTile { row, col, ch } => {
                push_str(&mut m, "tile desconhecido '");
                crate::text::push_char(&mut m, *ch);
                push_str(&mut m, "' em (");
                push_count(&mut m, *row);
                push_str(&mut m, ", ");
                push_count(&mut m, *col);
                push_str(&mut m, ")");
            },
        }
        m
    }
}

} // verus!
