use vstd::prelude::*;

verus! {

/// A single character that pictures a value on the board.
pub trait Icon {
    spec fn icon_spec(&self) -> char;

    fn icon(&self) -> (r: char)
        ensures
            r == self.icon_spec(),
    ;
}

/// One of the two sides. Blue moves first and starts on rows 0 and 1.
#[derive(Debug, Clone, Copy, PartialEq, Eq, Structural, Hash)]
pub enum Team {
    Blue,
    Red,
}

impl Team {
    pub open spec fn other(self) -> Team {
        match self {
            Team::Blue => Team::Red,
            Team::Red => Team::Blue,
        }
    }

    /// The other side.
    pub fn opponent(self) -> (r: Team)
        ensures
            r == self.other(),
    {
        match self {
            Team::Blue => Team::Red,
            Team::Red => Team::Blue,
        }
    }

    /// Turns this side into the other one.
    pub fn flip(&mut self)
        ensures
            *final(self) == old(self).other(),
    {
        *self = self.opponent();
    }
}

impl Default for Team {
    fn default() -> (r: Team)
        ensures
            r == Team::Blue,
    {
        Team::Blue
    }
}

/// How a piece may use one of its rays.
#[derive(Debug, Clone, Copy, PartialEq, Eq, Structural, Hash)]
pub enum MoveKind {
    /// may only step onto empty tiles
    MoveOnly,
    /// may only land on an enemy piece
    CaptureOnly,
    /// may land on an empty tile or an enemy piece
    MoveCapture,
    /// like `MoveCapture`, but never captures at range 1
    MoveMoveCapture,
    /// must travel the full range, jumping over anything in between
    Recall,
    /// must land on an enemy piece, which changes sides
    Convert,
}

/// Why a piece cannot make the move asked of it.
#[derive(Debug, Clone, Copy, PartialEq, Eq, Structural, Hash)]
pub enum InvalidPieceMove {
    NonCompassMove,
    TooFar,
    Blocked,
    MustCapture,
    FriendlyFire,
    NoMelee,
    CannotRecallHere,
    NonBlankMerge,
}

/// The kinds of pieces.
#[derive(Debug, Clone, Copy, PartialEq, Eq, Structural, Hash)]
pub enum PieceKind {
    Blank,
    Warrior,
    Runner,
    Diplomat,
    Champion,
    General,
    Stone,
}

/// The rays of a kind, seen from Blue: forward, fore-side, side, back-side, back.
/// Each entry is a way of moving and the largest distance along that ray.
pub open spec fn move_table(k: PieceKind) -> Seq<(MoveKind, u8)> {
    match k {
        PieceKind::Blank => seq![
            (MoveKind::MoveOnly, 1u8),
            (MoveKind::MoveOnly, 0u8),
            (MoveKind::MoveOnly, 1u8),
            (MoveKind::MoveOnly, 0u8),
            (MoveKind::MoveOnly, 0u8),
        ],
        PieceKind::Warrior => seq![
            (MoveKind::MoveCapture, 1u8),
            (MoveKind::CaptureOnly, 1u8),
            (MoveKind::MoveCapture, 1u8),
            (MoveKind::MoveOnly, 0u8),
            (MoveKind::Recall, 9u8),
        ],
        PieceKind::Runner => seq![
            (MoveKind::MoveOnly, 0u8),
            (MoveKind::MoveMoveCapture, 10u8),
            (MoveKind::MoveOnly, 0u8),
            (MoveKind::MoveMoveCapture, 10u8),
            (MoveKind::MoveOnly, 0u8),
        ],
        PieceKind::Diplomat => seq![
            (MoveKind::MoveOnly, 3u8),
            (MoveKind::Convert, 1u8),
            (MoveKind::MoveOnly, 3u8),
            (MoveKind::Convert, 1u8),
            (MoveKind::MoveOnly, 3u8),
        ],
        PieceKind::Champion => seq![
            (MoveKind::MoveCapture, 10u8),
            (MoveKind::MoveCapture, 1u8),
            (MoveKind::MoveCapture, 3u8),
            (MoveKind::MoveOnly, 0u8),
            (MoveKind::MoveOnly, 10u8),
        ],
        PieceKind::General => Seq::new(5, |i: int| (MoveKind::MoveCapture, 10u8)),
        PieceKind::Stone => Seq::new(5, |i: int| (MoveKind::MoveOnly, 0u8)),
    }
}

/// How many blanks, the destination included, a merge into `k` consumes.
pub open spec fn merge_cost(k: PieceKind) -> Option<usize> {
    match k {
        PieceKind::Blank => None,
        PieceKind::Warrior => Some(2),
        PieceKind::Runner => Some(4),
        PieceKind::Diplomat => Some(4),
        PieceKind::Champion => Some(5),
        PieceKind::General => Some(10),
        PieceKind::Stone => Some(21),
    }
}

/// The lower-case letter of a kind.
pub open spec fn kind_letter(k: PieceKind) -> char {
    match k {
        PieceKind::Blank => 'b',
        PieceKind::Warrior => 'w',
        PieceKind::Runner => 'r',
        PieceKind::Diplomat => 'd',
        PieceKind::Champion => 'c',
        PieceKind::General => 'g',
        PieceKind::Stone => 's',
    }
}

/// The upper-case letter of a kind.
pub open spec fn kind_capital(k: PieceKind) -> char {
    match k {
        PieceKind::Blank => 'B',
        PieceKind::Warrior => 'W',
        PieceKind::Runner => 'R',
        PieceKind::Diplomat => 'D',
        PieceKind::Champion => 'C',
        PieceKind::General => 'G',
        PieceKind::Stone => 'S',
    }
}

/// The full, lower-case name of a kind.
pub open spec fn kind_name(k: PieceKind) -> Seq<char> {
    match k {
        PieceKind::Blank => seq!['b', 'l', 'a', 'n', 'k'],
        PieceKind::Warrior => seq!['w', 'a', 'r', 'r', 'i', 'o', 'r'],
        PieceKind::Runner => seq!['r', 'u', 'n', 'n', 'e', 'r'],
        PieceKind::Diplomat => seq!['d', 'i', 'p', 'l', 'o', 'm', 'a', 't'],
        PieceKind::Champion => seq!['c', 'h', 'a', 'm', 'p', 'i', 'o', 'n'],
        PieceKind::General => seq!['g', 'e', 'n', 'e', 'r', 'a', 'l'],
        PieceKind::Stone => seq!['s', 't', 'o', 'n', 'e'],
    }
}

/// `c` equals the lower-case letter `k`, ignoring the case of ASCII letters.
pub open spec fn same_letter(c: char, k: char) -> bool {
    c == k || ('a' <= k <= 'z' && c as u32 + 32 == k as u32)
}

/// `w` spells the lower-case word `k`, ignoring the case of ASCII letters.
pub open spec fn same_word(w: Seq<char>, k: Seq<char>) -> bool {
    w.len() == k.len() && forall|i: int| 0 <= i < w.len() ==> same_letter(#[trigger] w[i], k[i])
}

/// The kind whose name `w` spells, ignoring case.
pub open spec fn kind_named(w: Seq<char>) -> Option<PieceKind> {
    if same_word(w, kind_name(PieceKind::Blank)) {
        Some(PieceKind::Blank)
    } else if same_word(w, kind_name(PieceKind::Warrior)) {
        Some(PieceKind::Warrior)
    } else if same_word(w, kind_name(PieceKind::Runner)) {
        Some(PieceKind::Runner)
    } else if same_word(w, kind_name(PieceKind::Diplomat)) {
        Some(PieceKind::Diplomat)
    } else if same_word(w, kind_name(PieceKind::Champion)) {
        Some(PieceKind::Champion)
    } else if same_word(w, kind_name(PieceKind::General)) {
        Some(PieceKind::General)
    } else if same_word(w, kind_name(PieceKind::Stone)) {
        Some(PieceKind::Stone)
    } else {
        None
    }
}

/// Whether `c` is the lower-case letter `k` in either case.
pub fn letter_matches(c: char, k: char) -> (r: bool)
    ensures
        r == same_letter(c, k),
{
    c == k || ('a' <= k && k <= 'z' && (c as u32) + 32 == k as u32)
}

/// Whether `w` spells the lower-case word `k`, ignoring case.
pub fn word_matches(w: &[char], k: &[char]) -> (r: bool)
    ensures
        r == same_word(w@, k@),
{
    if w.len() != k.len() {
        return false;
    }
    let mut i: usize = 0;
    while i < w.len()
        invariant
            w@.len() == k@.len(),
            i <= w@.len(),
            forall|j: int| 0 <= j < i ==> same_letter(#[trigger] w@[j], k@[j]),
        decreases w@.len() - i,
    {
        if !letter_matches(w[i], k[i]) {
            return false;
        }
        i += 1;
    }
    true
}

impl PieceKind {
    /// The rays of this kind, seen from Blue: forward, fore-side, side, back-side, back.
    pub fn moves(self) -> (r: [(MoveKind, u8); 5])
        ensures
            r@ == move_table(self),
    {
        let r = match self {
            PieceKind::Blank => [
                (MoveKind::MoveOnly, 1u8),
                (MoveKind::MoveOnly, 0u8),
                (MoveKind::MoveOnly, 1u8),
                (MoveKind::MoveOnly, 0u8),
                (MoveKind::MoveOnly, 0u8),
            ],
            PieceKind::Warrior => [
                (MoveKind::MoveCapture, 1u8),
                (MoveKind::CaptureOnly, 1u8),
                (MoveKind::MoveCapture, 1u8),
                (MoveKind::MoveOnly, 0u8),
                (MoveKind::Recall, 9u8),
            ],
            PieceKind::Runner => [
                (MoveKind::MoveOnly, 0u8),
                (MoveKind::MoveMoveCapture, 10u8),
                (MoveKind::MoveOnly, 0u8),
                (MoveKind::MoveMoveCapture, 10u8),
                (MoveKind::MoveOnly, 0u8),
            ],
            PieceKind::Diplomat => [
                (MoveKind::MoveOnly, 3u8),
                (MoveKind::Convert, 1u8),
                (MoveKind::MoveOnly, 3u8),
                (MoveKind::Convert, 1u8),
                (MoveKind::MoveOnly, 3u8),
            ],
            PieceKind::Champion => [
                (MoveKind::MoveCapture, 10u8),
                (MoveKind::MoveCapture, 1u8),
                (MoveKind::MoveCapture, 3u8),
                (MoveKind::MoveOnly, 0u8),
                (MoveKind::MoveOnly, 10u8),
            ],
            PieceKind::General => [(MoveKind::MoveCapture, 10u8); 5],
            PieceKind::Stone => [(MoveKind::MoveOnly, 0u8); 5],
        };
        assert(r@ =~= move_table(self));
        r
    }

    /// How many blanks, the destination included, a merge into this kind consumes;
    /// `None` for a blank, which no merge can make.
    pub fn merge_costs(self) -> (r: Option<usize>)
        ensures
            r == merge_cost(self),
    {
        match self {
            PieceKind::Blank => None,
            PieceKind::Warrior => Some(2),
            PieceKind::Runner => Some(4),
            PieceKind::Diplomat => Some(4),
            PieceKind::Champion => Some(5),
            PieceKind::General => Some(10),
            PieceKind::Stone => Some(21),
        }
    }

    /// The kind that `word` names ("warrior", "Stone", ...), ignoring case.
    pub fn from_name(word: &[char]) -> (r: Result<PieceKind, UnknownPiece>)
        ensures
            r == (match kind_named(word@) {
                Some(k) => Ok(k),
                None => Err(UnknownPiece),
            }),
    {
        if word_matches(word, &['b', 'l', 'a', 'n', 'k']) {
            Ok(PieceKind::Blank)
        } else if word_matches(word, &['w', 'a', 'r', 'r', 'i', 'o', 'r']) {
            Ok(PieceKind::Warrior)
        } else if word_matches(word, &['r', 'u', 'n', 'n', 'e', 'r']) {
            Ok(PieceKind::Runner)
        } else if word_matches(word, &['d', 'i', 'p', 'l', 'o', 'm', 'a', 't']) {
            Ok(PieceKind::Diplomat)
        } else if word_matches(word, &['c', 'h', 'a', 'm', 'p', 'i', 'o', 'n']) {
            Ok(PieceKind::Champion)
        } else if word_matches(word, &['g', 'e', 'n', 'e', 'r', 'a', 'l']) {
            Ok(PieceKind::General)
        } else if word_matches(word, &['s', 't', 'o', 'n', 'e']) {
            Ok(PieceKind::Stone)
        } else {
            Err(UnknownPiece)
        }
    }
}

impl Icon for PieceKind {
    open spec fn icon_spec(&self) -> char {
        kind_letter(*self)
    }

    fn icon(&self) -> (r: char) {
        match self {
            PieceKind::Blank => 'b',
            PieceKind::Warrior => 'w',
            PieceKind::Runner => 'r',
            PieceKind::Diplomat => 'd',
            PieceKind::Champion => 'c',
            PieceKind::General => 'g',
            PieceKind::Stone => 's',
        }
    }
}

/// A word that names no kind of piece.
#[derive(Debug, Clone, Copy, PartialEq, Eq, Structural)]
pub struct UnknownPiece;

/// A piece on the board: its side and its kind.
#[derive(Debug, Clone, Copy, PartialEq, Eq, Structural, Hash)]
pub struct Piece {
    pub team: Team,
    pub kind: PieceKind,
}

/// The rays of a piece in board order: down, down-side, side, up-side, up.
/// Blue faces down the board, so Red's forward and back rays trade places.
pub open spec fn piece_table(p: Piece) -> Seq<(MoveKind, u8)> {
    let t = move_table(p.kind);
    if p.team == Team::Red {
        t.update(0, t[4]).update(4, t[0])
    } else {
        t
    }
}

/// The slot of the ray along the unit step (dx, dy): 0 down, 1 down-side, 2 side,
/// 3 up-side, 4 up; `None` for the zero step and for anything that is not a unit step.
pub open spec fn ray_slot(dx: i8, dy: i8) -> Option<usize> {
    if dx == 0 && dy == 1 {
        Some(0)
    } else if (dx == 1 || dx == -1) && dy == 1 {
        Some(1)
    } else if (dx == 1 || dx == -1) && dy == 0 {
        Some(2)
    } else if (dx == 1 || dx == -1) && dy == -1 {
        Some(3)
    } else if dx == 0 && dy == -1 {
        Some(4)
    } else {
        None
    }
}

/// The letter that stands for a piece: upper case for Blue, lower case for Red.
pub open spec fn piece_letter(p: Piece) -> char {
    if p.team == Team::Blue {
        kind_capital(p.kind)
    } else {
        kind_letter(p.kind)
    }
}

impl Piece {
    /// The rays of this piece in board order: down, down-side, side, up-side, up.
    pub fn moves(&self) -> (r: [(MoveKind, u8); 5])
        ensures
            r@ == piece_table(*self),
    {
        let mut moves = self.kind.moves();
        if self.team == Team::Red {
            let down = moves[0];
            moves[0] = moves[4];
            moves[4] = down;
        }
        assert(moves@ =~= piece_table(*self));
        moves
    }

    /// The slot in `moves` of the ray along the unit step (dx, dy).
    pub fn ray_index(dx: i8, dy: i8) -> (r: Option<usize>)
        ensures
            r == ray_slot(dx, dy),
    {
        let sideways = dx == 1 || dx == -1;
        if dx == 0 && dy == 1 {
            Some(0)
        } else if sideways && dy == 1 {
            Some(1)
        } else if sideways && dy == 0 {
            Some(2)
        } else if sideways && dy == -1 {
            Some(3)
        } else if dx == 0 && dy == -1 {
            Some(4)
        } else {
            None
        }
    }
}

impl Icon for Piece {
    open spec fn icon_spec(&self) -> char {
        piece_letter(*self)
    }

    fn icon(&self) -> (r: char) {
        let lower = self.kind.icon();
        match self.team {
            Team::Red => lower,
            Team::Blue => match self.kind {
                PieceKind::Blank => 'B',
                PieceKind::Warrior => 'W',
                PieceKind::Runner => 'R',
                PieceKind::Diplomat => 'D',
                PieceKind::Champion => 'C',
                PieceKind::General => 'G',
                PieceKind::Stone => 'S',
            },
        }
    }
}

/// One cell of the board, empty or holding a piece.
#[derive(Debug, Clone, Copy, PartialEq, Eq, Structural, Hash)]
pub struct Tile(pub Option<Piece>);

/// The tile that a layout character stands for: `.`, `:` and `_` are empty cells,
/// a piece letter is a Blue piece in upper case and a Red one in lower case.
pub open spec fn glyph_tile(c: char) -> Option<Tile> {
    let blue = |k: PieceKind| Some(Tile(Some(Piece { team: Team::Blue, kind: k })));
    let red = |k: PieceKind| Some(Tile(Some(Piece { team: Team::Red, kind: k })));
    match c {
        '.' | ':' | '_' => Some(Tile(None)),
        'S' => blue(PieceKind::Stone),
        'B' => blue(PieceKind::Blank),
        'W' => blue(PieceKind::Warrior),
        'R' => blue(PieceKind::Runner),
        'D' => blue(PieceKind::Diplomat),
        'C' => blue(PieceKind::Champion),
        'G' => blue(PieceKind::General),
        's' => red(PieceKind::Stone),
        'b' => red(PieceKind::Blank),
        'w' => red(PieceKind::Warrior),
        'r' => red(PieceKind::Runner),
        'd' => red(PieceKind::Diplomat),
        'c' => red(PieceKind::Champion),
        'g' => red(PieceKind::General),
        _ => None,
    }
}

impl Tile {
    /// The tile that a layout character stands for, if any.
    pub fn from_glyph(c: char) -> (r: Option<Tile>)
        ensures
            r == glyph_tile(c),
    {
        let (team, lower) = match c {
            '.' | ':' | '_' => return Some(Tile(None)),
            'S' => (Team::Blue, 's'),
            'B' => (Team::Blue, 'b'),
            'W' => (Team::Blue, 'w'),
            'R' => (Team::Blue, 'r'),
            'D' => (Team::Blue, 'd'),
            'C' => (Team::Blue, 'c'),
            'G' => (Team::Blue, 'g'),
            _ => (Team::Red, c),
        };
        let kind = match lower {
            's' => PieceKind::Stone,
            'b' => PieceKind::Blank,
            'w' => PieceKind::Warrior,
            'r' => PieceKind::Runner,
            'd' => PieceKind::Diplomat,
            'c' => PieceKind::Champion,
            'g' => PieceKind::General,
            _ => return None,
        };
        Some(Tile(Some(Piece { team, kind })))
    }
}

impl Icon for Tile {
    open spec fn icon_spec(&self) -> char {
        match self.0 {
            None => ' ',
            Some(p) => piece_letter(p),
        }
    }

    fn icon(&self) -> (r: char) {
        match self.0 {
            None => ' ',
            Some(p) => p.icon(),
        }
    }
}

} // verus!
