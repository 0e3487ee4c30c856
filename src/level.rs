use vstd::prelude::*;

verus! {

/// One cell of a level grid.
#[derive(Clone, Copy, Debug, PartialEq, Eq, Structural)]
pub enum Tile {
    Empty,
    Ground,
    Start,
    End,
}

/// The tile that a grid symbol stands for, if it is one of the four symbols of the format.
pub open spec fn tile_of(c: char) -> Option<Tile> {
    if c == '\u{2B1C}' {
        Some(Tile::Empty)
    } else if c == '\u{1F7E9}' {
        Some(Tile::Ground)
    } else if c == '\u{1F642}' {
        Some(Tile::Start)
    } else if c == '\u{1F3C1}' {
        Some(Tile::End)
    } else {
        None
    }
}

/// Maps a grid symbol to its tile.
pub fn tile_for_symbol(c: char) -> (r: Option<Tile>)
    ensures
        r == tile_of(c),
{
    if c == '\u{2B1C}' {
        Some(Tile::Empty)
    } else if c == '\u{1F7E9}' {
        Some(Tile::Ground)
    } else if c == '\u{1F642}' {
        Some(Tile::Start)
    } else if c == '\u{1F3C1}' {
        Some(Tile::End)
    } else {
        None
    }
}


/// A level: its rows in file order, each row's tiles from left to right.
/// Rows need not all have the same length.
#[derive(Debug)]
pub struct Level {
    pub tiles: Vec<Vec<Tile>>,
}

impl View for Level {
    type V = Seq<Seq<Tile>>;

    open spec fn view(&self) -> Seq<Seq<Tile>> {
        self.tiles@.map_values(|row: Vec<Tile>| row@)
    }
}

/// Why a level text could not be read.
#[derive(Clone, Copy, Debug, PartialEq, Eq, Structural)]
pub enum LevelError {
    /// A character that is neither one of the four symbols nor a line break.
    UnknownTile(char),
}

/// Reads `s` from the left: the rows closed by a line break so far, and the row still open;
/// or the first character that is not part of the format.
pub open spec fn scan(s: Seq<char>) -> Result<(Seq<Seq<Tile>>, Seq<Tile>), char>
    decreases s.len(),
{
    if s.len() == 0 {
        Ok((seq![], seq![]))
    } else {
        match scan(s.drop_last()) {
            Err(c) => Err(c),
            Ok((rows, line)) => {
                let c = s.last();
                if c == '\n' {
                    Ok((rows.push(line), seq![]))
                } else {
                    match tile_of(c) {
                        Some(t) => Ok((rows, line.push(t))),
                        None => Err(c),
                    }
                }
            },
        }
    }
}

/// The level that a text describes: each line is a row; a last row without a line break
/// still counts, while nothing after the last line break adds no empty row.
pub open spec fn parse(s: Seq<char>) -> Result<Seq<Seq<Tile>>, char> {
    match scan(s) {
        Err(c) => Err(c),
        Ok((rows, line)) => Ok(
            if line.len() == 0 {
                rows
            } else {
                rows.push(line)
            },
        ),
    }
}

/// Once an unknown character has been read, nothing after it changes the outcome.
proof fn lemma_scan_err_stays(s: Seq<char>, k: int, j: int)
    requires
        0 <= k <= j <= s.len(),
        scan(s.take(k)) is Err,
    ensures
        scan(s.take(j)) == scan(s.take(k)),
    decreases j - k,
{
    if j > k {
        lemma_scan_err_stays(s, k, j - 1);
        assert(s.take(j).drop_last() =~= s.take(j - 1));
    }
}

/// Reads a level from its text: one row per line, one tile per symbol.
pub fn parse_level(text: &str) -> (r: Result<Level, LevelError>)
    ensures
        match parse(text@) {
            Ok(rows) => r is Ok && r->Ok_0@ == rows,
            Err(c) => r == Err::<Level, LevelError>(LevelError::UnknownTile(c)),
        },
{
    let ghost s = text@;
    let mut tiles: Vec<Vec<Tile>> = Vec::new();
    let mut line: Vec<Tile> = Vec::new();
    proof {
        assert(s.take(0) =~= Seq::<char>::empty());
        assert(tiles@.map_values(|row: Vec<Tile>| row@) =~= Seq::<Seq<Tile>>::empty());
    }
    for c in it: text.chars()
        invariant
            s == text@,
            it.seq() == s,
            scan(s.take(it.index())) == Ok::<(Seq<Seq<Tile>>, Seq<Tile>), char>(
                (tiles@.map_values(|row: Vec<Tile>| row@), line@),
            ),
    {
        proof {
            assert(s.take(it.index() + 1).drop_last() =~= s.take(it.index()));
        }
        if c == '\n' {
            let ghost rows0 = tiles@.map_values(|row: Vec<Tile>| row@);
            let ghost line0 = line@;
            tiles.push(line);
            line = Vec::new();
            proof {
                assert(tiles@.map_values(|row: Vec<Tile>| row@) =~= rows0.push(line0));
            }
        } else {
            match tile_for_symbol(c) {
                Some(t) => line.push(t),
                None => {
                    proof {
                        assert(c == s.take(it.index() + 1).last());
                        assert(scan(s.take(it.index() + 1)) == Err::<(Seq<Seq<Tile>>, Seq<Tile>), char>(c));
                        lemma_scan_err_stays(s, it.index() + 1, s.len() as int);
                        assert(s.take(s.len() as int) =~= s);
                    }
                    return Err(LevelError::UnknownTile(c));
                },
            }
        }
    }
    proof {
        assert(s.take(s.len() as int) =~= s);
    }
    if line.len() > 0 {
        let ghost rows0 = tiles@.map_values(|row: Vec<Tile>| row@);
        let ghost line0 = line@;
        tiles.push(line);
        proof {
            assert(tiles@.map_values(|row: Vec<Tile>| row@) =~= rows0.push(line0));
        }
    }
    Ok(Level { tiles })
}


/// Whether `c` may stand in a level text: a line break or one of the four symbols.
pub open spec fn is_known(c: char) -> bool {
    c == '\n' || tile_of(c) is Some
}

/// The symbol that writes a tile.
pub open spec fn symbol_of(t: Tile) -> char {
    match t {
        Tile::Empty => '\u{2B1C}',
        Tile::Ground => '\u{1F7E9}',
        Tile::Start => '\u{1F642}',
        Tile::End => '\u{1F3C1}',
    }
}

/// A grid written out as text: each row as its symbols followed by a line break.
pub open spec fn grid_text(grid: Seq<Seq<Tile>>) -> Seq<char>
    decreases grid.len(),
{
    if grid.len() == 0 {
        seq![]
    } else {
        grid_text(grid.drop_last()) + grid.last().map_values(|t: Tile| symbol_of(t)).push('\n')
    }
}

/// A text made only of known characters never fails to read.
proof fn lemma_scan_ok_when_known(s: Seq<char>)
    requires
        forall|i: int| 0 <= i < s.len() ==> is_known(#[trigger] s[i]),
    ensures
        scan(s) is Ok,
    decreases s.len(),
{
    if s.len() > 0 {
        lemma_scan_ok_when_known(s.drop_last());
    }
}

/// A text that reads without failure holds only known characters.
proof fn lemma_known_when_scan_ok(s: Seq<char>)
    requires
        scan(s) is Ok,
    ensures
        forall|i: int| 0 <= i < s.len() ==> is_known(#[trigger] s[i]),
    decreases s.len(),
{
    if s.len() > 0 {
        lemma_known_when_scan_ok(s.drop_last());
        assert forall|i: int| 0 <= i < s.len() implies is_known(#[trigger] s[i]) by {
            if i < s.len() - 1 {
                assert(s.drop_last()[i] == s[i]);
            }
        }
    }
}

/// Reading the symbols of a row onto a text whose open row is empty opens exactly that row.
proof fn lemma_scan_row(p: Seq<char>, rows: Seq<Seq<Tile>>, row: Seq<Tile>, k: int)
    requires
        scan(p) == Ok::<(Seq<Seq<Tile>>, Seq<Tile>), char>((rows, seq![])),
        0 <= k <= row.len(),
    ensures
        scan(p + row.map_values(|t: Tile| symbol_of(t)).take(k)) == Ok::<
            (Seq<Seq<Tile>>, Seq<Tile>),
            char,
        >((rows, row.take(k))),
    decreases k,
{
    let syms = row.map_values(|t: Tile| symbol_of(t));
    if k == 0 {
        assert(p + syms.take(0) =~= p);
        assert(row.take(0) =~= Seq::<Tile>::empty());
    } else {
        lemma_scan_row(p, rows, row, k - 1);
        assert((p + syms.take(k)).drop_last() =~= p + syms.take(k - 1));
        assert(row.take(k - 1).push(row[k - 1]) =~= row.take(k));
    }
}

/// Reading a written-out grid gives back the grid, row for row and tile for tile.
pub proof fn lemma_parse_grid_text(grid: Seq<Seq<Tile>>)
    ensures
        parse(grid_text(grid)) == Ok::<Seq<Seq<Tile>>, char>(grid),
{
    lemma_scan_grid_text(grid);
}

proof fn lemma_scan_grid_text(grid: Seq<Seq<Tile>>)
    ensures
        scan(grid_text(grid)) == Ok::<(Seq<Seq<Tile>>, Seq<Tile>), char>((grid, seq![])),
    decreases grid.len(),
{
    if grid.len() == 0 {
        assert(grid =~= Seq::<Seq<Tile>>::empty());
    } else {
        let front = grid.drop_last();
        let row = grid.last();
        let p = grid_text(front);
        let syms = row.map_values(|t: Tile| symbol_of(t));
        lemma_scan_grid_text(front);
        lemma_scan_row(p, front, row, row.len() as int);
        assert(syms.take(row.len() as int) =~= syms);
        assert(row.take(row.len() as int) =~= row);
        assert((p + syms.push('\n')).drop_last() =~= p + syms);
        assert(front.push(row) =~= grid);
    }
}

/// Reading a written-out grid followed by one more row without a final line break gives
/// back the grid with that row added: the last line counts even when unterminated.
pub proof fn lemma_parse_unterminated_last_row(grid: Seq<Seq<Tile>>, row: Seq<Tile>)
    requires
        row.len() > 0,
    ensures
        parse(grid_text(grid) + row.map_values(|t: Tile| symbol_of(t))) == Ok::<
            Seq<Seq<Tile>>,
            char,
        >(grid.push(row)),
{
    let syms = row.map_values(|t: Tile| symbol_of(t));
    lemma_scan_grid_text(grid);
    lemma_scan_row(grid_text(grid), grid, row, row.len() as int);
    assert(syms.take(row.len() as int) =~= syms);
    assert(row.take(row.len() as int) =~= row);
}

/// The first character outside the format is the one that a failed read reports,
/// wherever it stands.
pub proof fn lemma_parse_reports_first_unknown(s: Seq<char>, i: int)
    requires
        0 <= i < s.len(),
        !is_known(s[i]),
        forall|j: int| 0 <= j < i ==> is_known(#[trigger] s[j]),
    ensures
        parse(s) == Err::<Seq<Seq<Tile>>, char>(s[i]),
{
    let pre = s.take(i);
    assert forall|j: int| 0 <= j < pre.len() implies is_known(#[trigger] pre[j]) by {
        assert(pre[j] == s[j]);
    }
    lemma_scan_ok_when_known(pre);
    assert(s.take(i + 1).drop_last() =~= pre);
    lemma_scan_err_stays(s, i + 1, s.len() as int);
    assert(s.take(s.len() as int) =~= s);
}

/// A text that holds any character outside the format fails to read.
pub proof fn lemma_parse_fails_on_unknown(s: Seq<char>, i: int)
    requires
        0 <= i < s.len(),
        !is_known(s[i]),
    ensures
        parse(s) is Err,
        parse(s) matches Err(c) ==> !is_known(c),
{
    if scan(s) is Ok {
        lemma_known_when_scan_ok(s);
    }
    lemma_scan_err_char(s);
}

/// The character that a failed read reports is outside the format.
proof fn lemma_scan_err_char(s: Seq<char>)
    ensures
        scan(s) matches Err(c) ==> !is_known(c),
    decreases s.len(),
{
    if s.len() > 0 {
        lemma_scan_err_char(s.drop_last());
    }
}

} // verus!
