use vstd::prelude::*;

verus! {

/// One cell of a level grid.
#[derive(Clone, Copy, Debug, PartialEq, Eq, Structural)]
pub enum Tile {
    Floor,
    Wall,
    Box,
    BoxSpot,
    Player,
}

/// The tile that a character of the level text stands for, if any.
pub open spec fn tile_of(c: char) -> Option<Tile> {
    if c == '#' {
        Some(Tile::Wall)
    } else if c == '.' {
        Some(Tile::Floor)
    } else if c == '*' {
        Some(Tile::BoxSpot)
    } else if c == 'B' {
        Some(Tile::Box)
    } else if c == '@' {
        Some(Tile::Player)
    } else {
        None
    }
}

/// Characters with the Unicode `White_Space` property.
pub open spec fn is_white_space(c: char) -> bool {
    let u = c as u32;
    ||| 0x09 <= u <= 0x0d
    ||| u == 0x20
    ||| u == 0x85
    ||| u == 0xa0
    ||| u == 0x1680
    ||| 0x2000 <= u <= 0x200a
    ||| u == 0x2028
    ||| u == 0x2029
    ||| u == 0x202f
    ||| u == 0x205f
    ||| u == 0x3000
}

/// `s` without its leading white space.
pub open spec fn trim_start(s: Seq<char>) -> Seq<char>
    decreases s.len(),
{
    if s.len() > 0 && is_white_space(s[0]) {
        trim_start(s.drop_first())
    } else {
        s
    }
}

/// `s` without its trailing white space.
pub open spec fn trim_end(s: Seq<char>) -> Seq<char>
    decreases s.len(),
{
    if s.len() > 0 && is_white_space(s.last()) {
        trim_end(s.drop_last())
    } else {
        s
    }
}

/// `s` without its leading and trailing white space.
pub open spec fn trimmed(s: Seq<char>) -> Seq<char> {
    trim_end(trim_start(s))
}

/// The pieces of `s` between newline characters, in order; there is always at
/// least one, and one more than there are newlines.
pub open spec fn split_lines(s: Seq<char>) -> Seq<Seq<char>>
    decreases s.len(),
{
    if s.len() == 0 {
        seq![Seq::empty()]
    } else {
        let before = split_lines(s.drop_last());
        if s.last() == '\n' {
            before.push(Seq::empty())
        } else {
            before.update(before.len() - 1, before.last().push(s.last()))
        }
    }
}

proof fn lemma_split_lines_nonempty(s: Seq<char>)
    ensures
        split_lines(s).len() >= 1,
    decreases s.len(),
{
    if s.len() > 0 {
        lemma_split_lines_nonempty(s.drop_last());
    }
}

/// The tiles of a line: each recognised character in order, the others dropped.
pub open spec fn line_tiles(line: Seq<char>) -> Seq<Tile>
    decreases line.len(),
{
    if line.len() == 0 {
        Seq::empty()
    } else {
        let before = line_tiles(line.drop_last());
        match tile_of(line.last()) {
            Some(t) => before.push(t),
            None => before,
        }
    }
}

/// The grid that a level text describes: no rows when the text is blank, else
/// one row per line of the trimmed text.
pub open spec fn parse_rows(text: Seq<char>) -> Seq<Seq<Tile>> {
    let t = trimmed(text);
    if t.len() == 0 {
        Seq::empty()
    } else {
        split_lines(t).map_values(|line: Seq<char>| line_tiles(line))
    }
}

/// Relies on `str::trim`: the slice without leading and trailing characters
/// that have the Unicode `White_Space` property.
#[verifier::external_body]
fn trim(s: &str) -> (r: &str)
    ensures
        r@ == trimmed(s@),
{
    s.trim()
}

/// The tile that character `c` stands for, if any.
fn classify(c: char) -> (r: Option<Tile>)
    ensures
        r == tile_of(c),
{
    match c {
        '#' => Some(Tile::Wall),
        '.' => Some(Tile::Floor),
        '*' => Some(Tile::BoxSpot),
        'B' => Some(Tile::Box),
        '@' => Some(Tile::Player),
        _ => None,
    }
}

/// The kind of game entity that a cell of the grid asks the world to create.
#[derive(Clone, Copy, Debug, PartialEq, Eq, Structural)]
pub enum EntityKind {
    Floor,
    Wall,
    Box,
    BoxSpot,
    Player,
}

/// A request to create one entity at grid cell (`x`, `y`): column `x` of row `y`.
#[derive(Clone, Copy, Debug, PartialEq, Eq, Structural)]
pub struct Spawn {
    pub kind: EntityKind,
    pub x: usize,
    pub y: usize,
}

/// The entities that one cell stands for, in the order of their creation: a
/// wall alone, or a floor with whatever occupies it on top.
pub open spec fn cell_spawns(t: Tile, x: usize, y: usize) -> Seq<Spawn> {
    let floor = Spawn { kind: EntityKind::Floor, x, y };
    match t {
        Tile::Floor => seq![floor],
        Tile::Wall => seq![Spawn { kind: EntityKind::Wall, x, y }],
        Tile::Box => seq![floor, Spawn { kind: EntityKind::Box, x, y }],
        Tile::BoxSpot => seq![floor, Spawn { kind: EntityKind::BoxSpot, x, y }],
        Tile::Player => seq![floor, Spawn { kind: EntityKind::Player, x, y }],
    }
}

/// The entities of row `y`, cell by cell from the left.
pub open spec fn row_spawns(row: Seq<Tile>, y: usize) -> Seq<Spawn>
    decreases row.len(),
{
    if row.len() == 0 {
        Seq::empty()
    } else {
        row_spawns(row.drop_last(), y) + cell_spawns(row.last(), (row.len() - 1) as usize, y)
    }
}

/// The entities of a grid, row by row from the top.
pub open spec fn grid_spawns(rows: Seq<Seq<Tile>>) -> Seq<Spawn>
    decreases rows.len(),
{
    if rows.len() == 0 {
        Seq::empty()
    } else {
        grid_spawns(rows.drop_last()) + row_spawns(rows.last(), (rows.len() - 1) as usize)
    }
}

/// Appends the entities of one cell to `out`.
fn push_cell(out: &mut Vec<Spawn>, t: Tile, x: usize, y: usize)
    ensures
        final(out)@ == old(out)@ + cell_spawns(t, x, y),
{
    let floor = Spawn { kind: EntityKind::Floor, x, y };
    match t {
        Tile::Floor => out.push(floor),
        Tile::Wall => out.push(Spawn { kind: EntityKind::Wall, x, y }),
        Tile::Box => {
            out.push(floor);
            out.push(Spawn { kind: EntityKind::Box, x, y });
        },
        Tile::BoxSpot => {
            out.push(floor);
            out.push(Spawn { kind: EntityKind::BoxSpot, x, y });
        },
        Tile::Player => {
            out.push(floor);
            out.push(Spawn { kind: EntityKind::Player, x, y });
        },
    }
    assert(final(out)@ =~= old(out)@ + cell_spawns(t, x, y));
}

/// The rows of a grid held as vectors, as sequences.
pub open spec fn rows_view(rows: Seq<Vec<Tile>>) -> Seq<Seq<Tile>> {
    rows.map_values(|r: Vec<Tile>| r@)
}

/// A level grid, row-major (rows top to bottom, columns left to right), with
/// the place in the world at which its first cell stands. Rows may differ in
/// length.
pub struct TileMap<P> {
    pub position: P,
    tiles: Vec<Vec<Tile>>,
}

impl<P> TileMap<P> {
    /// The grid's rows.
    pub closed spec fn rows(&self) -> Seq<Seq<Tile>> {
        rows_view(self.tiles@)
    }

    /// The place in the world of the grid's first cell.
    pub closed spec fn origin(&self) -> P {
        self.position
    }

    /// Reads a level: the text is trimmed and split at each newline; each
    /// line gives one row, holding the tiles of its characters `#` (wall),
    /// `.` (floor), `*` (box spot), `B` (box) and `@` (player) in order, while
    /// every other character is dropped. Blank text gives no rows.
    pub fn from_str(position: P, s: &str) -> (r: Self)
        ensures
            r.rows() == parse_rows(s@),
            r.origin() == position,
    {
        let t = trim(s);
        let n = t.unicode_len();
        let mut rows: Vec<Vec<Tile>> = Vec::new();
        if n == 0 {
            assert(rows_view(rows@) =~= parse_rows(s@));
            return TileMap { position, tiles: rows };
        }
        let mut cur: Vec<Tile> = Vec::new();
        let mut i: usize = 0;
        assert(t@.take(0) =~= Seq::<char>::empty());
        assert(rows_view(rows@).push(cur@) =~= split_lines(t@.take(0)).map_values(
            |line: Seq<char>| line_tiles(line),
        ));
        while i < n
            invariant
                n == t@.len(),
                i <= n,
                rows_view(rows@).push(cur@) == split_lines(t@.take(i as int)).map_values(
                    |line: Seq<char>| line_tiles(line),
                ),
            decreases n - i,
        {
            let c = t.get_char(i);
            let ghost prev = t@.take(i as int);
            let ghost next = t@.take(i + 1);
            assert(next.drop_last() =~= prev);
            assert(next.last() == c);
            let ghost before = split_lines(prev);
            let ghost old_rows = rows_view(rows@);
            let ghost old_cur = cur@;
            proof {
                lemma_split_lines_nonempty(prev);
                let k = before.len() - 1;
                assert(old_rows.push(old_cur).len() == before.len());
                assert(old_rows.len() == k);
                assert(old_rows.push(old_cur)[k] == old_cur);
                assert(old_cur == line_tiles(before[k]));
                assert forall|j: int| 0 <= j < k implies old_rows[j] == line_tiles(before[j]) by {
                    assert(old_rows.push(old_cur)[j] == old_rows[j]);
                }
            }
            if c == '\n' {
                rows.push(cur);
                cur = Vec::new();
                assert(rows_view(rows@) =~= old_rows.push(old_cur));
                assert(line_tiles(Seq::empty()) == Seq::<Tile>::empty());
                assert(rows_view(rows@).push(cur@) =~= before.push(Seq::empty()).map_values(
                    |line: Seq<char>| line_tiles(line),
                ));
            } else {
                let ghost line = before.last();
                assert(line.push(c).drop_last() =~= line);
                assert(line.push(c).last() == c);
                match classify(c) {
                    Some(tile) => cur.push(tile),
                    None => {},
                }
                assert(cur@ == line_tiles(line.push(c)));
                assert(rows_view(rows@).push(cur@) =~= before.update(
                    before.len() - 1,
                    line.push(c),
                ).map_values(|line: Seq<char>| line_tiles(line)));
            }
            i += 1;
        }
        rows.push(cur);
        assert(t@.take(n as int) =~= t@);
        assert(rows_view(rows@) =~= parse_rows(s@));
        TileMap { position, tiles: rows }
    }

    /// The length of the first row, or 0 when there are no rows.
    pub fn width(&self) -> (r: usize)
        ensures
            r == (if self.rows().len() == 0 {
                0
            } else {
                self.rows()[0].len()
            }),
    {
        if self.tiles.len() == 0 {
            0
        } else {
            self.tiles[0].len()
        }
    }

    /// The entities that the grid stands for, in the order in which they are
    /// to be created: rows from the top, cells from the left, and in each
    /// cell a wall alone, or a floor and then its occupant.
    pub fn build(&self) -> (r: Vec<Spawn>)
        ensures
            r@ == grid_spawns(self.rows()),
    {
        let mut out: Vec<Spawn> = Vec::new();
        let mut y: usize = 0;
        assert(self.rows().take(0) =~= Seq::<Seq<Tile>>::empty());
        while y < self.tiles.len()
            invariant
                y <= self.tiles@.len(),
                out@ == grid_spawns(self.rows().take(y as int)),
            decreases self.tiles@.len() - y,
        {
            let row = &self.tiles[y];
            let ghost done = out@;
            let mut x: usize = 0;
            assert(row@.take(0) =~= Seq::<Tile>::empty());
            assert(done =~= done + row_spawns(row@.take(0), y));
            while x < row.len()
                invariant
                    x <= row@.len(),
                    out@ == done + row_spawns(row@.take(x as int), y),
                decreases row@.len() - x,
            {
                let ghost before = out@;
                push_cell(&mut out, row[x], x, y);
                assert(row@.take(x + 1).drop_last() =~= row@.take(x as int));
                assert(out@ =~= done + row_spawns(row@.take(x + 1), y));
                x += 1;
            }
            assert(row@.take(x as int) =~= row@);
            assert(self.rows()[y as int] == row@);
            assert(self.rows().take(y + 1).drop_last() =~= self.rows().take(y as int));
            y += 1;
        }
        assert(self.rows().take(y as int) =~= self.rows());
        out
    }

    /// The tile at column `x` of row `y`, if the grid has such a cell.
    pub fn tile(&self, x: usize, y: usize) -> (r: Option<Tile>)
        ensures
            r == (if y < self.rows().len() && x < self.rows()[y as int].len() {
                Some(self.rows()[y as int][x as int])
            } else {
                None
            }),
    {
        if y < self.tiles.len() && x < self.tiles[y].len() {
            Some(self.tiles[y][x])
        } else {
            None
        }
    }

    /// The number of rows.
    pub fn height(&self) -> (r: usize)
        ensures
            r == self.rows().len(),
    {
        self.tiles.len()
    }
}

/// How many newline characters `s` holds.
pub open spec fn newline_count(s: Seq<char>) -> nat
    decreases s.len(),
{
    if s.len() == 0 {
        0
    } else {
        newline_count(s.drop_last()) + if s.last() == '\n' {
            1nat
        } else {
            0nat
        }
    }
}

/// Splitting at newlines gives one line more than there are newlines.
pub proof fn lemma_split_lines_len(s: Seq<char>)
    ensures
        split_lines(s).len() == newline_count(s) + 1,
    decreases s.len(),
{
    if s.len() > 0 {
        lemma_split_lines_len(s.drop_last());
    }
}

/// A level's height is the number of lines of its trimmed text, empty lines
/// included, that is one more than the newlines between its first and last
/// non-blank characters; blank text has height 0.
pub proof fn lemma_height_counts_lines(text: Seq<char>)
    ensures
        trimmed(text).len() == 0 ==> parse_rows(text).len() == 0,
        trimmed(text).len() > 0 ==> parse_rows(text).len() == split_lines(trimmed(text)).len(),
        trimmed(text).len() > 0 ==> parse_rows(text).len() == newline_count(trimmed(text)) + 1,
{
    lemma_split_lines_len(trimmed(text));
}

/// A text of one tile character reads as one row holding that tile alone.
pub proof fn lemma_single_symbol(c: char)
    requires
        tile_of(c) is Some,
    ensures
        parse_rows(seq![c]) == seq![seq![tile_of(c)->0]],
{
    let s = seq![c];
    assert(!is_white_space(c));
    assert(trim_start(s) == s);
    assert(trim_end(s) == s);
    let e = Seq::<char>::empty();
    assert(s.drop_last() =~= e);
    assert(s.last() == c);
    assert(split_lines(e) == seq![e]);
    assert(line_tiles(e) == Seq::<Tile>::empty());
    assert(e.push(c) =~= s);
    assert(split_lines(s) =~= seq![s]);
    assert(line_tiles(s) =~= seq![tile_of(c)->0]);
    assert(parse_rows(s) =~= seq![seq![tile_of(c)->0]]);
}

} // verus!
