use vstd::prelude::*;
use crate::board::{count_tiles, is_mobile_of, is_stone_of, sign, Board, Pos};
use crate::moves::{parse_words, words, InvalidMove, InvalidMoveCommand, Move, MoveView};
use crate::piece::{
    merge_cost, piece_table, ray_slot, InvalidPieceMove, MoveKind, Piece, PieceKind, Team, Tile,
};
use crate::util::{is_polyomino, distinct, verify_polyomino, NonPolyomino};

verus! {

/// The side that won, or `None` for a draw.
#[derive(Debug, Clone, Copy, PartialEq, Eq, Structural, Hash)]
pub struct Winner(pub Option<Team>);

/// Whether the game goes on, and who won once it is over.
#[derive(Debug, Clone, Copy, PartialEq, Eq, Structural, Hash)]
pub enum GameState {
    Ongoing { draw_offered: bool },
    Finished(Winner),
}

/// A move that `Game::verify_move` accepted; only that function makes one.
#[derive(Debug, Clone)]
pub struct VerifiedMove(Move);

impl View for VerifiedMove {
    type V = MoveView;

    closed spec fn view(&self) -> MoveView {
        self.0@
    }
}

impl VerifiedMove {
    /// The move that was accepted.
    pub fn get(&self) -> (r: &Move)
        ensures
            r@ == self@,
    {
        &self.0
    }
}

/// A game as a mathematical value.
pub struct GameView {
    pub state: GameState,
    pub turn: Team,
    /// how many more moves the side to play may make before the turn passes
    pub power: int,
    pub board: Seq<Tile>,
    /// each position reached at a change of turn, with the side then to play, oldest first
    pub history: Seq<(Team, Seq<Tile>)>,
    /// turns of Blue in a row that began without a blank having moved or merged
    pub stagnation: int,
}

/// A game in progress, or over.
#[derive(Debug)]
pub struct Game {
    pub state: GameState,
    pub turn: Team,
    pub power: i8,
    pub board: Board,
    position_tracker: Vec<(Team, Board)>,
    stagnation: u8,
}

impl View for Game {
    type V = GameView;

    closed spec fn view(&self) -> GameView {
        GameView {
            state: self.state,
            turn: self.turn,
            power: self.power as int,
            board: self.board.tiles@,
            history: self.position_tracker@.map_values(|e: (Team, Board)| (e.0, e.1.tiles@)),
            stagnation: self.stagnation as int,
        }
    }
}

impl Default for Game {
    /// A game on the empty board, Blue to play.
    fn default() -> (r: Game)
        ensures
            r@ == (GameView {
                state: GameState::Ongoing { draw_offered: false },
                turn: Team::Blue,
                power: 0,
                board: Seq::new(100, |i: int| Tile(None)),
                history: Seq::empty(),
                stagnation: 0,
            }),
    {
        let r = Game::from_position(Team::Blue, Board::default());
        proof {
            let e = Seq::new(100, |i: int| Tile(None));
            let f = is_stone_of(Team::Blue);
            assert forall|n: int| 0 <= n <= 100 implies count_tiles(#[trigger] e.take(n), f) == 0 by {
                lemma_no_stones(e, f, n);
            }
            assert(e.take(100) =~= e);
        }
        r
    }
}

proof fn lemma_no_stones(e: Seq<Tile>, f: spec_fn(Tile) -> bool, n: int)
    requires
        0 <= n <= e.len(),
        forall|i: int| 0 <= i < e.len() ==> !f(#[trigger] e[i]),
    ensures
        count_tiles(e.take(n), f) == 0,
    decreases n,
{
    if n > 0 {
        assert(e.take(n).drop_last() =~= e.take(n - 1));
        lemma_no_stones(e, f, n - 1);
    }
}

/// `k` steps of size `d` (-1, 0 or 1).
pub open spec fn scale(k: int, d: i8) -> int {
    if d > 0 {
        k
    } else if d < 0 {
        -k
    } else {
        0
    }
}

/// The index of the cell `k` unit steps (dx, dy) away from `from`.
pub open spec fn ray_cell(from: Pos, dx: i8, dy: i8, k: int) -> int {
    (from.row() + scale(k, dy)) * 10 + from.col() + scale(k, dx)
}

/// Some cell strictly between `from` and the cell `dist` steps away holds a piece.
pub open spec fn path_blocked(b: Seq<Tile>, from: Pos, dx: i8, dy: i8, dist: int) -> bool {
    exists|k: int| 1 <= k < dist && (#[trigger] b[ray_cell(from, dx, dy, k)]).0 is Some
}

pub open spec fn piece_error(e: InvalidPieceMove) -> Result<(), InvalidMove> {
    Err(InvalidMove::InvalidPieceMove(e))
}

/// Whether the side `turn` may move the piece on `from` to `to`, and if not, why.
pub open spec fn check_piece_move(b: Seq<Tile>, turn: Team, from: Pos, to: Pos) -> Result<
    (),
    InvalidMove,
> {
    match b[from.0 as int].0 {
        None => Err(InvalidMove::EmptyTile),
        Some(piece) => {
            if piece.team != turn {
                Err(InvalidMove::NotYourPiece)
            } else if !from.aligned(to) {
                piece_error(InvalidPieceMove::NonCompassMove)
            } else {
                let dx = sign(to.col() - from.col());
                let dy = sign(to.row() - from.row());
                let dist = from.distance(to);
                let (kind, range) = piece_table(piece)[ray_slot(dx, dy)->0 as int];
                let target = b[to.0 as int].0;
                if range < dist {
                    piece_error(InvalidPieceMove::TooFar)
                } else if kind != MoveKind::Recall && path_blocked(b, from, dx, dy, dist) {
                    piece_error(InvalidPieceMove::Blocked)
                } else if target matches Some(t) && t.team == turn {
                    piece_error(InvalidPieceMove::FriendlyFire)
                } else if kind == MoveKind::MoveOnly && target is Some {
                    piece_error(InvalidPieceMove::Blocked)
                } else if (kind == MoveKind::CaptureOnly || kind == MoveKind::Convert)
                    && target is None {
                    piece_error(InvalidPieceMove::MustCapture)
                } else if kind == MoveKind::MoveMoveCapture && dist == 1 && target is Some {
                    piece_error(InvalidPieceMove::NoMelee)
                } else if kind == MoveKind::Recall && dist < range {
                    piece_error(InvalidPieceMove::CannotRecallHere)
                } else {
                    Ok(())
                }
            }
        },
    }
}

/// The two rows nearest a side's own edge: rows 0 and 1 for Blue, 8 and 9 for Red.
pub open spec fn in_home_rows(turn: Team, p: Pos) -> bool {
    match turn {
        Team::Blue => 0 <= p.0 < 20,
        Team::Red => 80 <= p.0 < 100,
    }
}

/// What is wrong with merging the cell `p`, if anything.
pub open spec fn merge_cell_error(b: Seq<Tile>, turn: Team, p: Pos) -> Option<InvalidMove> {
    match b[p.0 as int].0 {
        None => Some(InvalidMove::EmptyTile),
        Some(piece) => if piece.team != turn {
            Some(InvalidMove::NotYourPiece)
        } else if piece.kind != PieceKind::Blank {
            Some(InvalidMove::InvalidPieceMove(InvalidPieceMove::NonBlankMerge))
        } else if in_home_rows(turn, p) {
            Some(InvalidMove::HomeMerge)
        } else {
            None
        },
    }
}

/// The problem with the first cell of `s` that cannot be merged, if any.
pub open spec fn merge_cells_error(b: Seq<Tile>, turn: Team, s: Seq<Pos>) -> Option<InvalidMove>
    decreases s.len(),
{
    if s.len() == 0 {
        None
    } else {
        match merge_cells_error(b, turn, s.drop_last()) {
            Some(e) => Some(e),
            None => merge_cell_error(b, turn, s.last()),
        }
    }
}

/// Whether the side `turn` may merge the blanks on `pieces`, and if not, why: each cell
/// must hold a blank of that side outside its home rows, and together they must form
/// one polyomino.
pub open spec fn check_merge(b: Seq<Tile>, turn: Team, pieces: Seq<Pos>) -> Result<(), InvalidMove> {
    match merge_cells_error(b, turn, pieces) {
        Some(e) => Err(e),
        None => if !distinct(pieces) {
            Err(InvalidMove::NonPolyominoMerge(NonPolyomino::Duplicated))
        } else if !is_polyomino(pieces) {
            Err(InvalidMove::NonPolyominoMerge(NonPolyomino::Disconnected))
        } else {
            Ok(())
        },
    }
}

/// Whether `m` may be played in the game `g`, and if not, why.
pub open spec fn check_move(g: GameView, m: MoveView) -> Result<(), InvalidMove> {
    match g.state {
        GameState::Finished(_) => Err(InvalidMove::GameOver),
        GameState::Ongoing { draw_offered } => match m {
            MoveView::Resign => Ok(()),
            MoveView::Draw => Ok(()),
            MoveView::DeclineDraw => if draw_offered {
                Ok(())
            } else {
                Err(InvalidMove::DrawNotOffered)
            },
            MoveView::Move { from, to } => if draw_offered {
                Err(InvalidMove::DrawOffered)
            } else {
                check_piece_move(g.board, g.turn, from, to)
            },
            MoveView::Merge { kind, pieces } => if draw_offered {
                Err(InvalidMove::DrawOffered)
            } else {
                match merge_cost(kind) {
                    None => Err(InvalidMove::InvalidMergeKind),
                    Some(cost) => if pieces.len() != cost {
                        Err(InvalidMove::InvalidMergeCount(cost))
                    } else {
                        check_merge(g.board, g.turn, pieces)
                    },
                }
            },
        },
    }
}

/// A step along a diagonal: neither coordinate stays the same.
pub open spec fn is_diagonal(from: Pos, to: Pos) -> bool {
    from.col() != to.col() && from.row() != to.row()
}

/// The board after the side `turn` moves the piece on `from` to `to`. A Diplomat moving
/// diagonally onto a piece wins it over to `turn` where it stands; any other piece
/// replaces whatever was on `to`. `from` is left empty.
pub open spec fn relocate(b: Seq<Tile>, turn: Team, from: Pos, to: Pos) -> Seq<Tile> {
    let moving = b[from.0 as int];
    let target = b[to.0 as int];
    if moving.0 matches Some(p) && p.kind == PieceKind::Diplomat && is_diagonal(from, to)
        && target.0 is Some {
        b.update(to.0 as int, Tile(Some(Piece { team: turn, kind: target.0->0.kind }))).update(
            from.0 as int,
            Tile(None),
        )
    } else {
        b.update(to.0 as int, moving).update(from.0 as int, Tile(None))
    }
}

/// `b` with each of the cells `s` emptied.
pub open spec fn clear_cells(b: Seq<Tile>, s: Seq<Pos>) -> Seq<Tile>
    decreases s.len(),
{
    if s.len() == 0 {
        b
    } else {
        clear_cells(b, s.drop_last()).update(s.last().0 as int, Tile(None))
    }
}

/// The board after a merge: every listed cell but the last is emptied, and the piece on
/// the last becomes a `kind` of the same side.
pub open spec fn merge_board(b: Seq<Tile>, kind: PieceKind, pieces: Seq<Pos>) -> Seq<Tile> {
    let dest = pieces.last();
    let cleared = clear_cells(b, pieces.drop_last());
    match cleared[dest.0 as int].0 {
        Some(p) => cleared.update(dest.0 as int, Tile(Some(Piece { team: p.team, kind }))),
        None => cleared,
    }
}

/// All four center cells hold pieces of `team`.
pub open spec fn holds_center(b: Seq<Tile>, team: Team) -> bool {
    &&& b[44].0 matches Some(p) && p.team == team
    &&& b[45].0 matches Some(p) && p.team == team
    &&& b[54].0 matches Some(p) && p.team == team
    &&& b[55].0 matches Some(p) && p.team == team
}

/// How often `key` occurs in `h`.
pub open spec fn occurrences(h: Seq<(Team, Seq<Tile>)>, key: (Team, Seq<Tile>)) -> nat
    decreases h.len(),
{
    if h.len() == 0 {
        0
    } else {
        occurrences(h.drop_last(), key) + if h.last() == key {
            1nat
        } else {
            0nat
        }
    }
}

/// The checks after a piece moved or merged, in order: the mover wins by holding the
/// center, or by leaving the other side no piece but stones or no stone; else, once the
/// power is spent, the turn passes with power equal to the new side's stones, the
/// position is recorded, and the game is drawn when that position has now been reached
/// four times, or when Blue's turn comes round more than 64 times in a row without a
/// blank having moved or merged.
pub open spec fn settle(g: GameView) -> GameView {
    let enemy = g.turn.other();
    let won = GameView {
        state: GameState::Finished(Winner(Some(g.turn))),
        turn: g.turn,
        power: g.power,
        board: g.board,
        history: g.history,
        stagnation: g.stagnation,
    };
    if holds_center(g.board, g.turn) {
        won
    } else if count_tiles(g.board, is_mobile_of(enemy)) == 0 || count_tiles(
        g.board,
        is_stone_of(enemy),
    ) == 0 {
        won
    } else if g.power > 0 {
        g
    } else {
        let history = g.history.push((enemy, g.board));
        let repeated = occurrences(history, (enemy, g.board)) >= 4;
        let stagnation = if enemy == Team::Blue {
            g.stagnation + 1
        } else {
            g.stagnation
        };
        let stale = enemy == Team::Blue && stagnation > 64;
        GameView {
            state: if repeated || stale {
                GameState::Finished(Winner(None))
            } else {
                g.state
            },
            turn: enemy,
            power: count_tiles(g.board, is_stone_of(enemy)) as int,
            board: g.board,
            history,
            stagnation,
        }
    }
}

/// The game after `m` is played in `g`.
pub open spec fn next_state(g: GameView, m: MoveView) -> GameView {
    let draw_offered = g.state == GameState::Ongoing { draw_offered: true };
    match m {
        MoveView::Resign => GameView {
            state: GameState::Finished(Winner(Some(g.turn.other()))),
            ..g
        },
        MoveView::Draw => if draw_offered {
            GameView { state: GameState::Finished(Winner(None)), ..g }
        } else {
            GameView {
                state: GameState::Ongoing { draw_offered: true },
                turn: g.turn.other(),
                ..g
            }
        },
        MoveView::DeclineDraw => if draw_offered {
            GameView {
                state: GameState::Ongoing { draw_offered: false },
                turn: g.turn.other(),
                ..g
            }
        } else {
            g
        },
        MoveView::Move { from, to } => {
            let blank_moved = g.board[from.0 as int].0 matches Some(p) && p.kind
                == PieceKind::Blank;
            settle(
                GameView {
                    power: g.power - 1,
                    board: relocate(g.board, g.turn, from, to),
                    stagnation: if blank_moved {
                        0
                    } else {
                        g.stagnation
                    },
                    ..g
                },
            )
        },
        MoveView::Merge { kind, pieces } => settle(
            GameView {
                power: g.power - pieces.len(),
                board: merge_board(g.board, kind, pieces),
                stagnation: 0,
                ..g
            },
        ),
    }
}

proof fn lemma_merge_error_prefix(b: Seq<Tile>, turn: Team, s: Seq<Pos>, j: int)
    requires
        0 <= j <= s.len(),
        merge_cells_error(b, turn, s.take(j)) is Some,
    ensures
        merge_cells_error(b, turn, s) == merge_cells_error(b, turn, s.take(j)),
    decreases s.len() - j,
{
    if j == s.len() {
        assert(s.take(j) =~= s);
    } else {
        assert(s.take(j + 1).drop_last() =~= s.take(j));
        lemma_merge_error_prefix(b, turn, s, j + 1);
    }
}

/// A copy of a list of cells.
fn copy_cells(s: &Vec<Pos>) -> (r: Vec<Pos>)
    ensures
        r@ == s@,
{
    let mut r: Vec<Pos> = Vec::new();
    let mut i: usize = 0;
    while i < s.len()
        invariant
            i <= s@.len(),
            r@ == s@.take(i as int),
        decreases s@.len() - i,
    {
        r.push(s[i]);
        assert(r@ =~= s@.take(i + 1));
        i += 1;
    }
    assert(s@.take(s@.len() as int) =~= s@);
    r
}

impl Game {
    /// The game is well formed: while it goes on, the side to play has no negative power
    /// and the count of stagnant turns has not passed the limit.
    pub closed spec fn wf(&self) -> bool {
        self.state is Ongoing ==> 0 <= self.power && self.stagnation <= 64
    }

    /// A new game from the starting position, Blue to play.
    pub fn new() -> (r: Game)
        ensures
            r@ == (GameView {
                state: GameState::Ongoing { draw_offered: false },
                turn: Team::Blue,
                power: count_tiles(crate::board::start_tiles(), is_stone_of(Team::Blue)) as int,
                board: crate::board::start_tiles(),
                history: Seq::empty(),
                stagnation: 0,
            }),
            r.wf(),
    {
        Self::from_position(Team::Blue, Board::new())
    }

    /// A new game from `board`, `turn` to play with as much power as it has stones.
    pub fn from_position(turn: Team, board: Board) -> (r: Game)
        ensures
            r@ == (GameView {
                state: GameState::Ongoing { draw_offered: false },
                turn,
                power: count_tiles(board.tiles@, is_stone_of(turn)) as int,
                board: board.tiles@,
                history: Seq::empty(),
                stagnation: 0,
            }),
            r.wf(),
    {
        let power = board.stone_count(turn);
        let r = Game {
            state: GameState::Ongoing { draw_offered: false },
            turn,
            power,
            board,
            position_tracker: Vec::new(),
            stagnation: 0,
        };
        assert(r@.history =~= Seq::<(Team, Seq<Tile>)>::empty());
        r
    }

    pub fn is_ongoing(&self) -> (r: bool)
        ensures
            r == self@.state is Ongoing,
    {
        match self.state {
            GameState::Ongoing { .. } => true,
            GameState::Finished(_) => false,
        }
    }

    /// Whether the side `turn` may move the piece on `from` to `to` on `board`.
    pub fn verify_piece_move(board: &Board, turn: Team, from: Pos, to: Pos) -> (r: Result<
        (),
        InvalidMove,
    >)
        requires
            from.valid(),
            to.valid(),
        ensures
            r == check_piece_move(board.tiles@, turn, from, to),
    {
        let ghost b = board.tiles@;
        let piece = match board.get(from).0 {
            None => return Err(InvalidMove::EmptyTile),
            Some(p) => p,
        };
        if piece.team != turn {
            return Err(InvalidMove::NotYourPiece);
        }
        let (d, dist) = match from.dir_to(to) {
            None => return Err(InvalidMove::InvalidPieceMove(InvalidPieceMove::NonCompassMove)),
            Some(x) => x,
        };
        let dx = d[0];
        let dy = d[1];
        let slot = match Piece::ray_index(dx, dy) {
            Some(s) => s,
            None => {
                assert(false);
                return Err(InvalidMove::InvalidPieceMove(InvalidPieceMove::NonCompassMove));
            },
        };
        let moves = piece.moves();
        let (move_kind, range) = moves[slot];
        if range < dist {
            return Err(InvalidMove::InvalidPieceMove(InvalidPieceMove::TooFar));
        }
        if move_kind != MoveKind::Recall {
            let mut temp = from;
            let mut k: u8 = 1;
            while k < dist
                invariant
                    1 <= k <= dist,
                    dist as int == from.distance(to),
                    from.valid(),
                    to.valid(),
                    from.aligned(to),
                    dx == sign(to.col() - from.col()),
                    dy == sign(to.row() - from.row()),
                    b == board.tiles@,
                    b[from.0 as int].0 == Some(piece),
                    piece.team == turn,
                    ray_slot(dx, dy) == Some(slot),
                    piece_table(piece)[slot as int] == (move_kind, range),
                    range >= dist,
                    move_kind != MoveKind::Recall,
                    temp.valid(),
                    temp.row() == from.row() + scale(k - 1, dy),
                    temp.col() == from.col() + scale(k - 1, dx),
                    temp.0 == ray_cell(from, dx, dy, k - 1),
                    forall|j: int| 1 <= j < k ==> (#[trigger] b[ray_cell(from, dx, dy, j)]).0 is None,
                decreases dist - k,
            {
                let next = temp.shift(dx, dy);
                temp = match next {
                    Some(p) => p,
                    None => {
                        assert(false);
                        return Err(InvalidMove::InvalidPieceMove(InvalidPieceMove::Blocked));
                    },
                };
                if board.get(temp).0.is_some() {
                    assert(b[ray_cell(from, dx, dy, k as int)].0 is Some);
                    return Err(InvalidMove::InvalidPieceMove(InvalidPieceMove::Blocked));
                }
                k += 1;
            }
        }
        let target = board.get(to).0;
        if let Some(t) = target {
            if t.team == turn {
                return Err(InvalidMove::InvalidPieceMove(InvalidPieceMove::FriendlyFire));
            }
        }
        match move_kind {
            MoveKind::MoveOnly => if target.is_some() {
                return Err(InvalidMove::InvalidPieceMove(InvalidPieceMove::Blocked));
            },
            MoveKind::CaptureOnly | MoveKind::Convert => if target.is_none() {
                return Err(InvalidMove::InvalidPieceMove(InvalidPieceMove::MustCapture));
            },
            MoveKind::MoveMoveCapture => if dist == 1 && target.is_some() {
                return Err(InvalidMove::InvalidPieceMove(InvalidPieceMove::NoMelee));
            },
            MoveKind::Recall => if dist < range {
                return Err(InvalidMove::InvalidPieceMove(InvalidPieceMove::CannotRecallHere));
            },
            MoveKind::MoveCapture => {},
        }
        Ok(())
    }

    /// Whether the side `turn` may merge the blanks on `pieces` on `board`. The cells may
    /// be reordered on the way; the same cells remain.
    pub fn verify_merge(board: &Board, turn: Team, pieces: &mut [Pos]) -> (r: Result<
        (),
        InvalidMove,
    >)
        requires
            forall|i: int| 0 <= i < old(pieces)@.len() ==> (#[trigger] old(pieces)@[i]).valid(),
        ensures
            r == check_merge(board.tiles@, turn, old(pieces)@),
            final(pieces)@.len() == old(pieces)@.len(),
            forall|x: Pos| final(pieces)@.contains(x) <==> old(pieces)@.contains(x),
    {
        let ghost b = board.tiles@;
        let ghost s = pieces@;
        let mut i: usize = 0;
        while i < pieces.len()
            invariant
                s == pieces@,
                s == old(pieces)@,
                b == board.tiles@,
                i <= s.len(),
                forall|j: int| 0 <= j < s.len() ==> (#[trigger] s[j]).valid(),
                merge_cells_error(b, turn, s.take(i as int)) is None,
            decreases s.len() - i,
        {
            let p = pieces[i];
            assert(s.take(i + 1).drop_last() =~= s.take(i as int));
            assert(s.take(i + 1).last() == p);
            let err = match board.get(p).0 {
                None => Some(InvalidMove::EmptyTile),
                Some(piece) => if piece.team != turn {
                    Some(InvalidMove::NotYourPiece)
                } else if piece.kind != PieceKind::Blank {
                    Some(InvalidMove::InvalidPieceMove(InvalidPieceMove::NonBlankMerge))
                } else if match turn {
                    Team::Blue => 0 <= p.0 && p.0 < 20,
                    Team::Red => 80 <= p.0 && p.0 < 100,
                } {
                    Some(InvalidMove::HomeMerge)
                } else {
                    None
                },
            };
            if let Some(e) = err {
                proof {
                    lemma_merge_error_prefix(b, turn, s, i + 1);
                }
                return Err(e);
            }
            i += 1;
        }
        assert(s.take(s.len() as int) =~= s);
        match verify_polyomino(pieces) {
            Ok(()) => Ok(()),
            Err(e) => Err(InvalidMove::NonPolyominoMerge(e)),
        }
    }

    /// Checks `p_move` against the rules in the present state of the game; on success,
    /// the move is handed back in the form that `make_move` takes.
    pub fn verify_move(&self, p_move: Move) -> (r: Result<VerifiedMove, InvalidMove>)
        requires
            p_move@.cells_valid(),
        ensures
            match check_move(self@, p_move@) {
                Ok(()) => r matches Ok(v) && v@ == p_move@,
                Err(e) => r matches Err(x) && x == e,
            },
    {
        let draw_offered = match self.state {
            GameState::Finished(_) => return Err(InvalidMove::GameOver),
            GameState::Ongoing { draw_offered } => draw_offered,
        };
        let res = match &p_move {
            Move::Resign => Ok(()),
            Move::Draw => Ok(()),
            Move::DeclineDraw => if draw_offered {
                Ok(())
            } else {
                Err(InvalidMove::DrawNotOffered)
            },
            Move::Move { from, to } => if draw_offered {
                Err(InvalidMove::DrawOffered)
            } else {
                Self::verify_piece_move(&self.board, self.turn, *from, *to)
            },
            Move::Merge { kind, pieces } => if draw_offered {
                Err(InvalidMove::DrawOffered)
            } else {
                match kind.merge_costs() {
                    None => Err(InvalidMove::InvalidMergeKind),
                    Some(cost) => if pieces.len() != cost {
                        Err(InvalidMove::InvalidMergeCount(cost))
                    } else {
                        let mut scratch = copy_cells(pieces);
                        Self::verify_merge(&self.board, self.turn, scratch.as_mut_slice())
                    },
                }
            },
        };
        match res {
            Ok(()) => Ok(VerifiedMove(p_move)),
            Err(e) => Err(e),
        }
    }

    /// Reads a move command and checks it against the rules in the present state.
    pub fn verify_move_str(&self, input: &str) -> (r: Result<VerifiedMove, InvalidMoveCommand>)
        ensures
            match parse_words(words(input@)) {
                Err(e) => r matches Err(x) && x == e,
                Ok(m) => match check_move(self@, m) {
                    Ok(()) => r matches Ok(v) && v@ == m,
                    Err(e) => r matches Err(x) && x == InvalidMoveCommand::InvalidMove(e),
                },
            },
    {
        match Move::parse(input) {
            Err(e) => Err(e),
            Ok(m) => match self.verify_move(m) {
                Ok(v) => Ok(v),
                Err(e) => Err(InvalidMoveCommand::InvalidMove(e)),
            },
        }
    }

    /// Plays a move that `verify_move` accepted in the present state of the game.
    pub fn make_move(&mut self, p_move: VerifiedMove)
        requires
            old(self).wf(),
            p_move@.cells_valid(),
            check_move(old(self)@, p_move@) == Ok::<(), InvalidMove>(()),
        ensures
            final(self)@ == next_state(old(self)@, p_move@),
            final(self).wf(),
    {
        let draw_offered = match self.state {
            GameState::Ongoing { draw_offered } => draw_offered,
            GameState::Finished(_) => return ,
        };
        let ghost tracker = self.position_tracker@;
        match p_move.0 {
            Move::Resign => {
                self.state = GameState::Finished(Winner(Some(self.turn.opponent())));
            },
            Move::Draw => {
                if draw_offered {
                    self.state = GameState::Finished(Winner(None));
                } else {
                    self.turn = self.turn.opponent();
                    self.state = GameState::Ongoing { draw_offered: true };
                }
            },
            Move::DeclineDraw => {
                if draw_offered {
                    self.state = GameState::Ongoing { draw_offered: false };
                    self.turn = self.turn.opponent();
                }
            },
            Move::Move { from, to } => {
                self.power = self.power - 1;
                let moving = self.board.get(from);
                let target = self.board.get(to);
                if let Some(p) = moving.0 {
                    if p.kind == PieceKind::Blank {
                        self.stagnation = 0;
                    }
                }
                let diagonal = from.0 % 10 != to.0 % 10 && from.0 / 10 != to.0 / 10;
                match (moving.0, target.0) {
                    (Some(p), Some(t)) if p.kind == PieceKind::Diplomat && diagonal => {
                        self.board.set(to, Tile(Some(Piece { team: self.turn, kind: t.kind })));
                    },
                    _ => {
                        self.board.set(to, moving);
                    },
                }
                self.board.set(from, Tile(None));
                assert(self.position_tracker@ == tracker);
                self.post_move_checks();
            },
            Move::Merge { kind, pieces } => {
                self.stagnation = 0;
                self.power = self.power - pieces.len() as i8;
                let ghost b0 = self.board.tiles@;
                let ghost power = self.power;
                let ghost turn = self.turn;
                let n = pieces.len();
                let dest = pieces[n - 1];
                let mut i: usize = 0;
                while i + 1 < n
                    invariant
                        n == pieces@.len(),
                        n >= 1,
                        i + 1 <= n,
                        forall|j: int| 0 <= j < n ==> (#[trigger] pieces@[j]).valid(),
                        self.board.tiles@ == clear_cells(b0, pieces@.drop_last().take(i as int)),
                        self.position_tracker@ == tracker,
                        self.state == (GameState::Ongoing { draw_offered: false }),
                        self.power == power,
                        self.turn == turn,
                        self.stagnation == 0,
                    decreases n - i,
                {
                    let ghost before = pieces@.drop_last().take(i as int);
                    assert(pieces@.drop_last().take(i + 1).drop_last() =~= before);
                    self.board.set(pieces[i], Tile(None));
                    i += 1;
                }
                assert(pieces@.drop_last().take(i as int) =~= pieces@.drop_last());
                let t = self.board.get(dest);
                if let Some(p) = t.0 {
                    self.board.set(dest, Tile(Some(Piece { team: p.team, kind })));
                }
                assert(self.position_tracker@ == tracker);
                self.post_move_checks();
            },
        }
    }

    /// How often the side `turn` was to play on `board` among the positions in `h`.
    fn count_position(h: &Vec<(Team, Board)>, turn: Team, board: &Board) -> (r: usize)
        ensures
            r == occurrences(
                h@.map_values(|e: (Team, Board)| (e.0, e.1.tiles@)),
                (turn, board.tiles@),
            ),
    {
        let ghost hv = h@.map_values(|e: (Team, Board)| (e.0, e.1.tiles@));
        let ghost key = (turn, board.tiles@);
        let mut r: usize = 0;
        let mut i: usize = 0;
        while i < h.len()
            invariant
                i <= h@.len(),
                hv == h@.map_values(|e: (Team, Board)| (e.0, e.1.tiles@)),
                key == (turn, board.tiles@),
                r <= i,
                r == occurrences(hv.take(i as int), key),
            decreases h@.len() - i,
        {
            assert(hv.take(i + 1).drop_last() =~= hv.take(i as int));
            assert(hv.take(i + 1).last() == hv[i as int]);
            if h[i].0 == turn && h[i].1 == *board {
                r += 1;
            }
            i += 1;
        }
        assert(hv.take(h@.len() as int) =~= hv);
        r
    }

    /// The checks that follow a move or a merge of the side to play.
    fn post_move_checks(&mut self)
        requires
            old(self).state == (GameState::Ongoing { draw_offered: false }),
            old(self).power >= -21,
            old(self).stagnation <= 64,
        ensures
            final(self)@ == settle(old(self)@),
            final(self).wf(),
    {
        let t = self.turn;
        let c44 = self.board.get(Pos(44));
        let c45 = self.board.get(Pos(45));
        let c54 = self.board.get(Pos(54));
        let c55 = self.board.get(Pos(55));
        let mine = |c: Tile| -> (r: bool)
            ensures
                r == (c.0 matches Some(p) && p.team == t),
            {
                match c.0 {
                    Some(p) => p.team == t,
                    None => false,
                }
            };
        if mine(c44) && mine(c45) && mine(c54) && mine(c55) {
            self.state = GameState::Finished(Winner(Some(t)));
            return ;
        }
        let enemy = t.opponent();
        let pieces = self.board.piece_count(enemy);
        let stones = self.board.stone_count(enemy);
        if pieces == 0 || stones == 0 {
            self.state = GameState::Finished(Winner(Some(t)));
            return ;
        }
        if self.power > 0 {
            return ;
        }
        self.turn = enemy;
        let ghost tracker = self.position_tracker@;
        self.position_tracker.push((enemy, self.board));
        assert(self.position_tracker@.map_values(|e: (Team, Board)| (e.0, e.1.tiles@)) =~= tracker.map_values(
            |e: (Team, Board)| (e.0, e.1.tiles@),
        ).push((enemy, self.board.tiles@)));
        let reps = Self::count_position(&self.position_tracker, enemy, &self.board);
        if reps >= 4 {
            self.state = GameState::Finished(Winner(None));
        }
        self.power = stones;
        if enemy == Team::Blue {
            self.stagnation = self.stagnation + 1;
            if self.stagnation > 64 {
                self.state = GameState::Finished(Winner(None));
            }
        }
    }
}

/// A Diplomat that moves diagonally onto an enemy piece wins that piece over where it
/// stands, keeping its kind, and leaves its own cell empty.
pub proof fn lemma_diplomat_converts(g: GameView, from: Pos, to: Pos)
    requires
        g.board.len() == 100,
        from.valid(),
        to.valid(),
        g.board[from.0 as int].0 == Some(Piece { team: g.turn, kind: PieceKind::Diplomat }),
        is_diagonal(from, to),
        g.board[to.0 as int].0 matches Some(t) && t.team != g.turn,
    ensures
        ({
            let b = next_state(g, MoveView::Move { from, to }).board;
            &&& b[to.0 as int] == Tile(
                Some(Piece { team: g.turn, kind: g.board[to.0 as int].0->0.kind }),
            )
            &&& b[from.0 as int] == Tile(None)
        }),
{
    assert(from != to);
}

/// A Diplomat that moves along a row or column onto an empty cell simply goes there.
pub proof fn lemma_diplomat_displaces(g: GameView, from: Pos, to: Pos)
    requires
        g.board.len() == 100,
        from.valid(),
        to.valid(),
        from != to,
        g.board[from.0 as int].0 == Some(Piece { team: g.turn, kind: PieceKind::Diplomat }),
        !is_diagonal(from, to),
        g.board[to.0 as int].0 is None,
    ensures
        ({
            let b = next_state(g, MoveView::Move { from, to }).board;
            &&& b[to.0 as int] == g.board[from.0 as int]
            &&& b[from.0 as int] == Tile(None)
        }),
{
}

/// A Warrior's recall, straight back along its column, must cover its whole range of
/// nine: a shorter one is refused with `CannotRecallHere`, and the full one is allowed
/// whatever stands in between.
pub proof fn lemma_recall_exact(b: Seq<Tile>, turn: Team, from: Pos, to: Pos)
    requires
        b.len() == 100,
        from.valid(),
        to.valid(),
        b[from.0 as int].0 == Some(Piece { team: turn, kind: PieceKind::Warrior }),
        from.col() == to.col(),
        turn == Team::Blue ==> to.row() < from.row(),
        turn == Team::Red ==> to.row() > from.row(),
        !(b[to.0 as int].0 matches Some(t) && t.team == turn),
    ensures
        from.distance(to) < 9 ==> check_piece_move(b, turn, from, to) == piece_error(
            InvalidPieceMove::CannotRecallHere,
        ),
        from.distance(to) == 9 ==> check_piece_move(b, turn, from, to) == Ok::<(), InvalidMove>(()),
{
    let p = Piece { team: turn, kind: PieceKind::Warrior };
    assert(piece_table(p)[if turn == Team::Blue { 4int } else { 0int }] == (MoveKind::Recall, 9u8));
}

proof fn lemma_occurrences_push(h: Seq<(Team, Seq<Tile>)>, key: (Team, Seq<Tile>))
    ensures
        occurrences(h.push(key), key) == occurrences(h, key) + 1,
{
    assert(h.push(key).drop_last() =~= h);
}

/// When the turn passes to a position that the side then to play has already faced
/// three times, the position is recorded a fourth time and the game ends drawn.
pub proof fn lemma_fourth_repetition_draws(g: GameView)
    requires
        !holds_center(g.board, g.turn),
        count_tiles(g.board, is_mobile_of(g.turn.other())) > 0,
        count_tiles(g.board, is_stone_of(g.turn.other())) > 0,
        g.power <= 0,
        occurrences(g.history, (g.turn.other(), g.board)) >= 3,
    ensures
        settle(g).turn == g.turn.other(),
        occurrences(settle(g).history, (g.turn.other(), g.board)) == occurrences(
            g.history,
            (g.turn.other(), g.board),
        ) + 1,
        settle(g).state == GameState::Finished(Winner(None)),
{
    lemma_occurrences_push(g.history, (g.turn.other(), g.board));
}

/// Each relocation spends one unit of power. While power is left the same side plays
/// on; when it runs out the turn passes, and the new side's power is its number of stones.
pub proof fn lemma_power_turn_flip(g: GameView, from: Pos, to: Pos)
    requires
        g.state == (GameState::Ongoing { draw_offered: false }),
        ({
            let b = relocate(g.board, g.turn, from, to);
            &&& !holds_center(b, g.turn)
            &&& count_tiles(b, is_mobile_of(g.turn.other())) > 0
            &&& count_tiles(b, is_stone_of(g.turn.other())) > 0
        }),
    ensures
        ({
            let n = next_state(g, MoveView::Move { from, to });
            let b = relocate(g.board, g.turn, from, to);
            &&& n.board == b
            &&& g.power > 1 ==> n.turn == g.turn && n.power == g.power - 1
            &&& g.power <= 1 ==> n.turn == g.turn.other() && n.power == count_tiles(
                b,
                is_stone_of(g.turn.other()),
            )
        }),
{
}

} // verus!
