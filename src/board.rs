use vstd::prelude::*;
use crate::piece::{glyph_tile, piece_letter, Icon, Piece, PieceKind, Team, Tile};

verus! {

/// A cell of the board, numbered row * 10 + column, rows and columns 0 to 9.
#[derive(Debug, Clone, Copy, PartialEq, Eq, Structural, Hash)]
pub struct Pos(pub i8);

/// The sign of a number: -1, 0 or 1.
pub open spec fn sign(n: int) -> i8 {
    if n < 0 {
        -1i8
    } else if n > 0 {
        1i8
    } else {
        0i8
    }
}

/// The absolute value of a number.
pub open spec fn abs(n: int) -> int {
    if n < 0 {
        -n
    } else {
        n
    }
}

impl Pos {
    /// The cell lies on the board.
    pub open spec fn valid(self) -> bool {
        0 <= self.0 < 100
    }

    pub open spec fn row(self) -> int {
        (self.0 as int) / 10
    }

    pub open spec fn col(self) -> int {
        (self.0 as int) % 10
    }

    /// `other` lies on the same row, column or diagonal as `self`, and is not `self`.
    pub open spec fn aligned(self, other: Pos) -> bool {
        let dx = other.col() - self.col();
        let dy = other.row() - self.row();
        (dx == 0 || dy == 0) != (abs(dx) == abs(dy))
    }

    /// The number of steps from `self` to `other` along their common line.
    pub open spec fn distance(self, other: Pos) -> int {
        let dx = abs(other.col() - self.col());
        let dy = abs(other.row() - self.row());
        if dx >= dy {
            dx
        } else {
            dy
        }
    }

    /// The cell (dx, dy) away, if it is on the board: x runs along a row, y down the
    /// columns, and nothing wraps from one row to the next.
    pub open spec fn shifted(self, dx: int, dy: int) -> Option<Pos> {
        let x = self.col() + dx;
        let y = self.row() + dy;
        if 0 <= x < 10 && 0 <= y < 10 {
            Some(Pos((y * 10 + x) as i8))
        } else {
            None
        }
    }

    /// The unit step from `self` towards `rhs` and the number of such steps, when the
    /// two cells share a row, a column or a diagonal; `None` otherwise, and for `self`.
    pub fn dir_to(self, rhs: Self) -> (r: Option<([i8; 2], u8)>)
        requires
            self.valid(),
            rhs.valid(),
        ensures
            r is Some <==> self.aligned(rhs),
            r matches Some((d, n)) ==> {
                &&& d@ == seq![
                    sign(rhs.col() - self.col()),
                    sign(rhs.row() - self.row()),
                ]
                &&& n == self.distance(rhs)
            },
    {
        let x1 = self.0 % 10;
        let y1 = self.0 / 10;
        let x2 = rhs.0 % 10;
        let y2 = rhs.0 / 10;
        let dx = x2 - x1;
        let dy = y2 - y1;
        let ax = if dx < 0 {
            -dx
        } else {
            dx
        };
        let ay = if dy < 0 {
            -dy
        } else {
            dy
        };
        if (dx == 0 || dy == 0) != (ax == ay) {
            let sx: i8 = if dx < 0 {
                -1
            } else if dx > 0 {
                1
            } else {
                0
            };
            let sy: i8 = if dy < 0 {
                -1
            } else if dy > 0 {
                1
            } else {
                0
            };
            let n = if ax >= ay {
                ax
            } else {
                ay
            };
            let d = [sx, sy];
            assert(d@ =~= seq![sx, sy]);
            Some((d, n as u8))
        } else {
            None
        }
    }

    /// The cell (dx, dy) away, or `None` where that leaves the board.
    pub fn shift(self, dx: i8, dy: i8) -> (r: Option<Pos>)
        requires
            self.valid(),
        ensures
            r == self.shifted(dx as int, dy as int),
    {
        let x = (self.0 % 10) as i16 + dx as i16;
        let y = (self.0 / 10) as i16 + dy as i16;
        if 0 <= x && x < 10 && 0 <= y && y < 10 {
            Some(Pos((y * 10 + x) as i8))
        } else {
            None
        }
    }
}

/// The four center cells; holding all of them with one's own pieces wins the game.
pub open spec fn is_victory_cell(i: int) -> bool {
    i == 44 || i == 45 || i == 54 || i == 55
}

/// The tile on cell `i` of the starting position: Blue blanks on rows 0 and 1,
/// Blue stones on row 2, Red stones on row 7 and Red blanks on rows 8 and 9.
pub open spec fn start_tile(i: int) -> Tile {
    let row = i / 10;
    let col = i % 10;
    let stone_col = col == 0 || col == 2 || col == 7 || col == 9;
    if row <= 1 {
        Tile(Some(Piece { team: Team::Blue, kind: PieceKind::Blank }))
    } else if row == 2 && stone_col {
        Tile(Some(Piece { team: Team::Blue, kind: PieceKind::Stone }))
    } else if row == 7 && stone_col {
        Tile(Some(Piece { team: Team::Red, kind: PieceKind::Stone }))
    } else if row >= 8 {
        Tile(Some(Piece { team: Team::Red, kind: PieceKind::Blank }))
    } else {
        Tile(None)
    }
}

pub open spec fn start_tiles() -> Seq<Tile> {
    Seq::new(100, |i: int| start_tile(i))
}

/// How many tiles of `s` satisfy `f`.
pub open spec fn count_tiles(s: Seq<Tile>, f: spec_fn(Tile) -> bool) -> nat
    decreases s.len(),
{
    if s.len() == 0 {
        0
    } else {
        count_tiles(s.drop_last(), f) + if f(s.last()) {
            1nat
        } else {
            0nat
        }
    }
}

/// A piece of `team` other than a stone.
pub open spec fn is_mobile_of(team: Team) -> spec_fn(Tile) -> bool {
    |t: Tile| t.0 matches Some(p) && p.team == team && p.kind != PieceKind::Stone
}

/// A stone of `team`.
pub open spec fn is_stone_of(team: Team) -> spec_fn(Tile) -> bool {
    |t: Tile| t.0 == Some(Piece { team, kind: PieceKind::Stone })
}

/// No more tiles satisfy a test than there are tiles.
pub proof fn lemma_count_bound(s: Seq<Tile>, f: spec_fn(Tile) -> bool)
    ensures
        count_tiles(s, f) <= s.len(),
    decreases s.len(),
{
    if s.len() > 0 {
        lemma_count_bound(s.drop_last(), f);
    }
}

/// ASCII whitespace, which a board layout may hold anywhere.
pub open spec fn is_layout_space(c: char) -> bool {
    c == ' ' || c == '\t' || c == '\n' || c == '\r' || c == '\x0c'
}

/// The characters of `s` that are not whitespace, in order.
pub open spec fn glyphs(s: Seq<char>) -> Seq<char>
    decreases s.len(),
{
    if s.len() == 0 {
        Seq::empty()
    } else if is_layout_space(s.last()) {
        glyphs(s.drop_last())
    } else {
        glyphs(s.drop_last()).push(s.last())
    }
}

/// Why a layout does not describe a board.
#[derive(Debug, Clone, Copy, PartialEq, Eq, Structural, Hash)]
pub enum BoardParseError {
    InvalidTile,
    NotEnoughTiles,
    TooManyTiles,
}

/// The tiles that a layout describes: its non-whitespace characters, one per cell in
/// order, each a piece letter or an empty-cell mark, and exactly 100 of them.
pub open spec fn parse_layout(s: Seq<char>) -> Result<Seq<Tile>, BoardParseError> {
    let g = glyphs(s);
    if exists|i: int| 0 <= i < g.len() && glyph_tile(#[trigger] g[i]) is None {
        Err(BoardParseError::InvalidTile)
    } else if g.len() < 100 {
        Err(BoardParseError::NotEnoughTiles)
    } else if g.len() > 100 {
        Err(BoardParseError::TooManyTiles)
    } else {
        Ok(g.map_values(|c: char| glyph_tile(c)->0))
    }
}

/// The character that shows cell `i` holding `t`: the piece's letter, `:` for an
/// empty center cell and `.` for any other empty cell.
pub open spec fn cell_glyph(t: Tile, i: int) -> char {
    match t.0 {
        Some(p) => piece_letter(p),
        None => if is_victory_cell(i) {
            ':'
        } else {
            '.'
        },
    }
}

/// The first `n` rows of the layout of `b`, each row's ten characters then a newline.
pub open spec fn layout_rows(b: Seq<Tile>, n: int) -> Seq<char>
    decreases n,
{
    if n <= 0 {
        Seq::empty()
    } else {
        layout_rows(b, n - 1) + row_text(b, n - 1) + seq!['\n']
    }
}

/// The ten characters of row `y` of `b`.
pub open spec fn row_text(b: Seq<Tile>, y: int) -> Seq<char> {
    Seq::new(10, |x: int| cell_glyph(b[y * 10 + x], y * 10 + x))
}

/// The board as ten lines of ten characters.
pub open spec fn layout_text(b: Seq<Tile>) -> Seq<char> {
    layout_rows(b, 10)
}

/// The 100 cells of the board, row by row.
#[derive(Debug, Clone, Copy, Hash)]
pub struct Board {
    pub tiles: [Tile; 100],
}

impl PartialEq for Board {
    fn eq(&self, other: &Board) -> (r: bool) {
        let mut i: usize = 0;
        while i < 100
            invariant
                i <= 100,
                forall|j: int| 0 <= j < i ==> self.tiles@[j] == other.tiles@[j],
            decreases 100 - i,
        {
            if self.tiles[i] != other.tiles[i] {
                return false;
            }
            i += 1;
        }
        assert(self.tiles@ =~= other.tiles@);
        true
    }
}

impl vstd::std_specs::cmp::PartialEqSpecImpl for Board {
    open spec fn obeys_eq_spec() -> bool {
        true
    }

    open spec fn eq_spec(&self, other: &Board) -> bool {
        self.tiles@ == other.tiles@
    }
}

impl Eq for Board {

}

impl Default for Board {
    /// The empty board.
    fn default() -> (r: Board)
        ensures
            r.tiles@ == Seq::new(100, |i: int| Tile(None)),
    {
        let r = Board { tiles: [Tile(None); 100] };
        assert(r.tiles@ =~= Seq::new(100, |i: int| Tile(None)));
        r
    }
}

impl Board {
    /// The starting position.
    pub fn new() -> (r: Board)
        ensures
            r.tiles@ == start_tiles(),
    {
        let mut tiles = [Tile(None); 100];
        let mut i: usize = 0;
        while i < 100
            invariant
                i <= 100,
                tiles@.len() == 100,
                forall|j: int| 0 <= j < i ==> tiles@[j] == start_tile(j),
            decreases 100 - i,
        {
            let row = i / 10;
            let col = i % 10;
            let stone_col = col == 0 || col == 2 || col == 7 || col == 9;
            tiles[i] = if row <= 1 {
                Tile(Some(Piece { team: Team::Blue, kind: PieceKind::Blank }))
            } else if row == 2 && stone_col {
                Tile(Some(Piece { team: Team::Blue, kind: PieceKind::Stone }))
            } else if row == 7 && stone_col {
                Tile(Some(Piece { team: Team::Red, kind: PieceKind::Stone }))
            } else if row >= 8 {
                Tile(Some(Piece { team: Team::Red, kind: PieceKind::Blank }))
            } else {
                Tile(None)
            };
            i += 1;
        }
        assert(tiles@ =~= start_tiles());
        Board { tiles }
    }

    /// The tile on cell `p`.
    pub fn get(&self, p: Pos) -> (r: Tile)
        requires
            p.valid(),
        ensures
            r == self.tiles@[p.0 as int],
    {
        self.tiles[p.0 as usize]
    }

    /// Puts `t` on cell `p`.
    pub fn set(&mut self, p: Pos, t: Tile)
        requires
            p.valid(),
        ensures
            final(self).tiles@ == old(self).tiles@.update(p.0 as int, t),
    {
        self.tiles[p.0 as usize] = t;
    }

    /// How many pieces other than stones `team` has.
    pub fn piece_count(&self, team: Team) -> (r: i8)
        ensures
            r as int == count_tiles(self.tiles@, is_mobile_of(team)),
    {
        let mut n: i8 = 0;
        let mut i: usize = 0;
        while i < 100
            invariant
                i <= 100,
                self.tiles@.len() == 100,
                n as int == count_tiles(self.tiles@.take(i as int), is_mobile_of(team)),
            decreases 100 - i,
        {
            proof {
                lemma_count_bound(self.tiles@.take(i as int), is_mobile_of(team));
                assert(self.tiles@.take(i + 1).drop_last() =~= self.tiles@.take(i as int));
            }
            if let Some(p) = self.tiles[i].0 {
                if p.team == team && p.kind != PieceKind::Stone {
                    n += 1;
                }
            }
            i += 1;
        }
        assert(self.tiles@.take(100) =~= self.tiles@);
        n
    }

    /// How many stones `team` has.
    pub fn stone_count(&self, team: Team) -> (r: i8)
        ensures
            r as int == count_tiles(self.tiles@, is_stone_of(team)),
    {
        let stone = Piece { team, kind: PieceKind::Stone };
        let mut n: i8 = 0;
        let mut i: usize = 0;
        while i < 100
            invariant
                i <= 100,
                self.tiles@.len() == 100,
                stone == (Piece { team, kind: PieceKind::Stone }),
                n as int == count_tiles(self.tiles@.take(i as int), is_stone_of(team)),
            decreases 100 - i,
        {
            proof {
                lemma_count_bound(self.tiles@.take(i as int), is_stone_of(team));
                assert(self.tiles@.take(i + 1).drop_last() =~= self.tiles@.take(i as int));
            }
            if self.tiles[i].0 == Some(stone) {
                n += 1;
            }
            i += 1;
        }
        assert(self.tiles@.take(100) =~= self.tiles@);
        n
    }
}

/// Relies on `String::push`: appends one character to the end of the string.
#[verifier::external_body]
fn push_char(s: &mut String, c: char)
    ensures
        final(s)@ == old(s)@.push(c),
{
    s.push(c);
}

/// The non-whitespace characters of a concatenation are those of its parts.
pub proof fn lemma_glyphs_concat(a: Seq<char>, b: Seq<char>)
    ensures
        glyphs(a + b) == glyphs(a) + glyphs(b),
    decreases b.len(),
{
    if b.len() == 0 {
        assert(a + b =~= a);
        assert(glyphs(a) + glyphs(b) =~= glyphs(a));
    } else {
        assert((a + b).drop_last() =~= a + b.drop_last());
        assert((a + b).last() == b.last());
        lemma_glyphs_concat(a, b.drop_last());
        if is_layout_space(b.last()) {
        } else {
            assert(glyphs(a) + glyphs(b.drop_last()).push(b.last()) =~= (glyphs(a) + glyphs(
                b.drop_last(),
            )).push(b.last()));
        }
    }
}

/// A text without whitespace is its own list of glyphs.
pub proof fn lemma_glyphs_no_space(s: Seq<char>)
    requires
        forall|i: int| 0 <= i < s.len() ==> !is_layout_space(#[trigger] s[i]),
    ensures
        glyphs(s) == s,
    decreases s.len(),
{
    if s.len() > 0 {
        lemma_glyphs_no_space(s.drop_last());
        assert(s.drop_last().push(s.last()) =~= s);
    }
}

/// The character drawn for a tile reads back as that tile.
pub proof fn lemma_cell_glyph_parses(t: Tile, i: int)
    ensures
        glyph_tile(cell_glyph(t, i)) == Some(t),
        !is_layout_space(cell_glyph(t, i)),
{
}

/// The glyphs of the first `n` rows of a layout are the first 10 * `n` cells, drawn.
pub proof fn lemma_layout_rows_glyphs(b: Seq<Tile>, n: int)
    requires
        b.len() == 100,
        0 <= n <= 10,
    ensures
        glyphs(layout_rows(b, n)) == Seq::new((10 * n) as nat, |i: int| cell_glyph(b[i], i)),
    decreases n,
{
    if n == 0 {
        assert(glyphs(layout_rows(b, n)) =~= Seq::new(0, |i: int| cell_glyph(b[i], i)));
    } else {
        lemma_layout_rows_glyphs(b, n - 1);
        let row = row_text(b, n - 1);
        assert forall|i: int| 0 <= i < row.len() implies !is_layout_space(#[trigger] row[i]) by {
            lemma_cell_glyph_parses(b[(n - 1) * 10 + i], (n - 1) * 10 + i);
        }
        lemma_glyphs_no_space(row);
        lemma_glyphs_concat(layout_rows(b, n - 1), row);
        lemma_glyphs_concat(layout_rows(b, n - 1) + row, seq!['\n']);
        assert(glyphs(seq!['\n']) =~= Seq::<char>::empty()) by {
            assert(seq!['\n'].drop_last() =~= Seq::<char>::empty());
            assert(seq!['\n'].last() == '\n');
            assert(glyphs(Seq::<char>::empty()) == Seq::<char>::empty());
            assert(glyphs(seq!['\n']) == glyphs(seq!['\n'].drop_last()));
        }
        assert(glyphs(layout_rows(b, n)) =~= Seq::new((10 * n) as nat, |i: int| cell_glyph(b[i], i)));
    }
}

/// Writing a board out as its layout and reading that layout back gives the same board.
pub proof fn lemma_layout_round_trip(b: Board)
    ensures
        parse_layout(layout_text(b.tiles@)) == Ok::<Seq<Tile>, BoardParseError>(b.tiles@),
{
    let t = b.tiles@;
    lemma_layout_rows_glyphs(t, 10);
    let g = glyphs(layout_text(t));
    assert forall|i: int| 0 <= i < g.len() implies glyph_tile(#[trigger] g[i]) is Some by {
        lemma_cell_glyph_parses(t[i], i);
    }
    assert forall|i: int| 0 <= i < g.len() implies glyph_tile(#[trigger] g[i])->0 == t[i] by {
        lemma_cell_glyph_parses(t[i], i);
    }
    assert(g.map_values(|c: char| glyph_tile(c)->0) =~= t);
}

/// Reading a layout and writing the board back out keeps every cell: the two texts,
/// whitespace aside, name the same piece, or an empty cell, at each of the 100 places.
pub proof fn lemma_parse_then_layout(s: Seq<char>)
    requires
        parse_layout(s) is Ok,
    ensures
        glyphs(layout_text(parse_layout(s)->Ok_0)).len() == 100,
        glyphs(s).len() == 100,
        forall|i: int|
            0 <= i < 100 ==> glyph_tile(#[trigger] glyphs(layout_text(parse_layout(s)->Ok_0))[i])
                == glyph_tile(glyphs(s)[i]),
{
    let t = parse_layout(s)->Ok_0;
    let g = glyphs(s);
    lemma_layout_rows_glyphs(t, 10);
    assert forall|i: int| 0 <= i < 100 implies glyph_tile(
        #[trigger] glyphs(layout_text(t))[i],
    ) == glyph_tile(g[i]) by {
        lemma_cell_glyph_parses(t[i], i);
        assert(glyph_tile(g[i]) is Some);
    }
}

impl Board {
    /// Reads a layout: 100 cells row by row, whitespace anywhere ignored, each cell a
    /// piece letter (upper case Blue, lower case Red) or `.`, `:` or `_` for empty.
    pub fn parse(s: &str) -> (r: Result<Board, BoardParseError>)
        ensures
            match parse_layout(s@) {
                Ok(t) => r matches Ok(b) && b.tiles@ == t,
                Err(e) => r == Err::<Board, BoardParseError>(e),
            },
    {
        let n = s.unicode_len();
        let mut tiles: Vec<Tile> = Vec::new();
        let mut i: usize = 0;
        while i < n
            invariant
                n == s@.len(),
                i <= n,
                tiles@ == glyphs(s@.take(i as int)).map_values(|c: char| glyph_tile(c)->0),
                forall|j: int|
                    0 <= j < glyphs(s@.take(i as int)).len() ==> glyph_tile(
                        #[trigger] glyphs(s@.take(i as int))[j],
                    ) is Some,
            decreases n - i,
        {
            let c = s.get_char(i);
            let ghost before = s@.take(i as int);
            assert(s@.take(i + 1).drop_last() =~= before);
            assert(s@.take(i + 1).last() == c);
            if !(c == ' ' || c == '\t' || c == '\n' || c == '\r' || c == '\x0c') {
                match Tile::from_glyph(c) {
                    Some(t) => {
                        tiles.push(t);
                        assert(tiles@ =~= glyphs(s@.take(i + 1)).map_values(
                            |c: char| glyph_tile(c)->0,
                        ));
                    },
                    None => {
                        proof {
                            assert(s@ =~= s@.take(i + 1) + s@.skip(i + 1));
                            lemma_glyphs_concat(s@.take(i + 1), s@.skip(i + 1));
                            let k = glyphs(before).len() as int;
                            assert(glyphs(s@)[k] == c);
                        }
                        return Err(BoardParseError::InvalidTile);
                    },
                }
            }
            i += 1;
        }
        assert(s@.take(n as int) =~= s@);
        if tiles.len() < 100 {
            return Err(BoardParseError::NotEnoughTiles);
        } else if tiles.len() > 100 {
            return Err(BoardParseError::TooManyTiles);
        }
        let mut arr = [Tile(None); 100];
        let mut k: usize = 0;
        while k < 100
            invariant
                k <= 100,
                tiles@.len() == 100,
                arr@.len() == 100,
                forall|j: int| 0 <= j < k ==> arr@[j] == tiles@[j],
            decreases 100 - k,
        {
            arr[k] = tiles[k];
            k += 1;
        }
        assert(arr@ =~= tiles@);
        Ok(Board { tiles: arr })
    }

    /// The board as ten lines of ten characters, in the form that `parse` reads:
    /// piece letters, `:` on an empty center cell and `.` on any other empty cell.
    pub fn layout(&self) -> (r: String)
        ensures
            r@ == layout_text(self.tiles@),
    {
        let ghost b = self.tiles@;
        let mut out = String::new();
        let mut y: usize = 0;
        while y < 10
            invariant
                y <= 10,
                b == self.tiles@,
                out@ == layout_rows(b, y as int),
            decreases 10 - y,
        {
            let mut x: usize = 0;
            while x < 10
                invariant
                    y < 10,
                    x <= 10,
                    b == self.tiles@,
                    out@ == layout_rows(b, y as int) + row_text(b, y as int).take(x as int),
                decreases 10 - x,
            {
                let i = y * 10 + x;
                let c = match self.tiles[i].0 {
                    Some(p) => p.icon(),
                    None => if i == 44 || i == 45 || i == 54 || i == 55 {
                        ':'
                    } else {
                        '.'
                    },
                };
                push_char(&mut out, c);
                assert(row_text(b, y as int).take(x + 1) =~= row_text(b, y as int).take(
                    x as int,
                ).push(c));
                x += 1;
            }
            push_char(&mut out, '\n');
            assert(row_text(b, y as int).take(10) =~= row_text(b, y as int));
            y += 1;
        }
        out
    }
}

impl core::str::FromStr for Board {
    type Err = BoardParseError;

    fn from_str(s: &str) -> Result<Board, BoardParseError> {
        Board::parse(s)
    }
}

/// No cell has a direction to itself; a direction exists between two cells exactly when
/// they are different and share a row, a column or a diagonal, and then it exists both ways.
pub proof fn lemma_direction_symmetry(p: Pos, q: Pos)
    requires
        p.valid(),
        q.valid(),
    ensures
        !p.aligned(p),
        p.aligned(q) <==> (p != q && (p.row() == q.row() || p.col() == q.col() || abs(
            p.row() - q.row(),
        ) == abs(p.col() - q.col()))),
        p.aligned(q) == q.aligned(p),
{
    assert(p.0 == p.row() * 10 + p.col());
    assert(q.0 == q.row() * 10 + q.col());
}

/// Shifting never wraps round an edge: a step off any side of the board leaves it.
pub proof fn lemma_no_wraparound(p: Pos)
    requires
        p.valid(),
    ensures
        p.col() == 9 ==> p.shifted(1, 0) is None,
        p.row() == 9 ==> p.shifted(0, 1) is None,
        p.col() == 0 ==> p.shifted(-1, 0) is None,
        p.row() == 0 ==> p.shifted(0, -1) is None,
{
}

} // verus!
