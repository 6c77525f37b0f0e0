use vstd::prelude::*;
use crate::board::Pos;
use crate::piece::{
    kind_named, merge_cost, same_word, word_matches, InvalidPieceMove, PieceKind, UnknownPiece,
};
use crate::util::NonPolyomino;

verus! {

/// What a player does on their turn.
#[derive(Debug, Clone)]
pub enum Move {
    Resign,
    /// offers a draw, or accepts the one on offer
    Draw,
    DeclineDraw,
    Move { from: Pos, to: Pos },
    /// The last position is the destination.
    Merge { kind: PieceKind, pieces: Vec<Pos> },
}

/// A move as a mathematical value.
pub enum MoveView {
    Resign,
    Draw,
    DeclineDraw,
    Move { from: Pos, to: Pos },
    Merge { kind: PieceKind, pieces: Seq<Pos> },
}

impl MoveView {
    /// Every cell that the move names lies on the board.
    pub open spec fn cells_valid(self) -> bool {
        match self {
            MoveView::Move { from, to } => from.valid() && to.valid(),
            MoveView::Merge { pieces, .. } => forall|i: int|
                0 <= i < pieces.len() ==> (#[trigger] pieces[i]).valid(),
            _ => true,
        }
    }
}

impl View for Move {
    type V = MoveView;

    open spec fn view(&self) -> MoveView {
        match self {
            Move::Resign => MoveView::Resign,
            Move::Draw => MoveView::Draw,
            Move::DeclineDraw => MoveView::DeclineDraw,
            Move::Move { from, to } => MoveView::Move { from: *from, to: *to },
            Move::Merge { kind, pieces } => MoveView::Merge { kind: *kind, pieces: pieces@ },
        }
    }
}

/// The two lists hold the same cells in the same order.
fn same_cells(a: &Vec<Pos>, b: &Vec<Pos>) -> (r: bool)
    ensures
        r == (a@ == b@),
{
    if a.len() != b.len() {
        return false;
    }
    let mut i: usize = 0;
    while i < a.len()
        invariant
            a@.len() == b@.len(),
            i <= a@.len(),
            forall|j: int| 0 <= j < i ==> a@[j] == b@[j],
        decreases a@.len() - i,
    {
        if a[i] != b[i] {
            return false;
        }
        i += 1;
    }
    assert(a@ =~= b@);
    true
}

impl PartialEq for Move {
    fn eq(&self, other: &Move) -> (r: bool) {
        match (self, other) {
            (Move::Resign, Move::Resign) => true,
            (Move::Draw, Move::Draw) => true,
            (Move::DeclineDraw, Move::DeclineDraw) => true,
            (Move::Move { from: f1, to: t1 }, Move::Move { from: f2, to: t2 }) => *f1 == *f2 && *t1
                == *t2,
            (Move::Merge { kind: k1, pieces: p1 }, Move::Merge { kind: k2, pieces: p2 }) => *k1
                == *k2 && same_cells(p1, p2),
            _ => false,
        }
    }
}

impl vstd::std_specs::cmp::PartialEqSpecImpl for Move {
    open spec fn obeys_eq_spec() -> bool {
        true
    }

    open spec fn eq_spec(&self, other: &Move) -> bool {
        self@ == other@
    }
}

impl Eq for Move {

}

/// Why a move breaks the rules.
#[derive(Debug, Clone, Copy, PartialEq, Eq, Structural, Hash)]
pub enum InvalidMove {
    GameOver,
    DrawNotOffered,
    DrawOffered,
    EmptyTile,
    NotYourPiece,
    InvalidPieceMove(InvalidPieceMove),
    /// the number of blanks, destination included, that the merge needs
    InvalidMergeCount(usize),
    InvalidMergeKind,
    NonPolyominoMerge(NonPolyomino),
    HomeMerge,
}

/// A part of a move command.
#[derive(Debug, Clone, Copy, PartialEq, Eq, Structural, Hash)]
pub enum Parameter {
    /// the leading word that names the kind of move
    Verb,
    /// the cell a piece moves from
    From,
    /// the word `to`
    ToKeyword,
    /// the cell a piece moves to
    To,
    /// the kind of piece a merge makes
    MergeKind,
    /// the word `at`
    AtKeyword,
    /// the cell where a merge puts its piece
    Destination,
    /// the word `with`
    WithKeyword,
    /// a cell: two digits, row then column
    Position,
}

/// Why a command is not a well-formed move.
#[derive(Debug, Clone, Copy, PartialEq, Eq, Structural, Hash)]
pub enum InvalidMoveSyntax {
    UnknownMove,
    MissingParameter(Parameter),
    InvalidParameter(Parameter),
}

/// Why a command was refused: it is malformed, or it names an illegal move.
#[derive(Debug, Clone, Copy, PartialEq, Eq, Structural, Hash)]
pub enum InvalidMoveCommand {
    InvalidSyntax(InvalidMoveSyntax),
    InvalidMove(InvalidMove),
}

/// Unicode white space, which separates the words of a command.
pub open spec fn is_space(c: char) -> bool {
    ('\t' <= c <= '\r') || c == ' ' || c == '\u{85}' || c == '\u{a0}' || c == '\u{1680}' || (
    '\u{2000}' <= c <= '\u{200a}') || c == '\u{2028}' || c == '\u{2029}' || c == '\u{202f}' || c
        == '\u{205f}' || c == '\u{3000}'
}

/// The words of `s`: its longest runs of characters that are not white space, in order.
pub open spec fn words(s: Seq<char>) -> Seq<Seq<char>>
    decreases s.len(),
{
    if s.len() == 0 {
        Seq::empty()
    } else if is_space(s.last()) {
        words(s.drop_last())
    } else if s.len() >= 2 && !is_space(s[s.len() - 2]) {
        let w = words(s.drop_last());
        w.update(w.len() - 1, w.last().push(s.last()))
    } else {
        words(s.drop_last()).push(seq![s.last()])
    }
}

/// An ASCII digit.
pub open spec fn is_digit(c: char) -> bool {
    '0' <= c <= '9'
}

/// The cell that a word names: exactly two digits, the row then the column.
pub open spec fn pos_of(t: Seq<char>) -> Option<Pos> {
    if t.len() == 2 && is_digit(t[0]) && is_digit(t[1]) {
        Some(Pos(((t[0] as int - '0' as int) * 10 + (t[1] as int - '0' as int)) as i8))
    } else {
        None
    }
}

pub open spec fn syntax_error(e: InvalidMoveSyntax) -> Result<MoveView, InvalidMoveCommand> {
    Err(InvalidMoveCommand::InvalidSyntax(e))
}

pub open spec fn missing(p: Parameter) -> Result<MoveView, InvalidMoveCommand> {
    syntax_error(InvalidMoveSyntax::MissingParameter(p))
}

pub open spec fn invalid(p: Parameter) -> Result<MoveView, InvalidMoveCommand> {
    syntax_error(InvalidMoveSyntax::InvalidParameter(p))
}

/// `move <pos> to <pos>`, given all the words of the command.
pub open spec fn parse_relocation(w: Seq<Seq<char>>) -> Result<MoveView, InvalidMoveCommand> {
    if w.len() < 2 {
        missing(Parameter::From)
    } else if pos_of(w[1]) is None {
        invalid(Parameter::Position)
    } else if w.len() < 3 {
        missing(Parameter::ToKeyword)
    } else if !same_word(w[2], seq!['t', 'o']) {
        invalid(Parameter::ToKeyword)
    } else if w.len() < 4 {
        missing(Parameter::To)
    } else if pos_of(w[3]) is None {
        invalid(Parameter::Position)
    } else {
        Ok(MoveView::Move { from: pos_of(w[1])->0, to: pos_of(w[3])->0 })
    }
}

/// The words after `with` that a merge into a kind of cost `cost` reads: at most `cost`.
pub open spec fn listed_words(w: Seq<Seq<char>>, cost: usize) -> Seq<Seq<char>> {
    let rest = w.skip(5);
    if rest.len() <= cost {
        rest
    } else {
        rest.take(cost as int)
    }
}

/// `merge <kind> at <pos> with <pos> ...`, given all the words of the command: exactly
/// cost - 1 cells after `with`, then the destination last.
pub open spec fn parse_merge(w: Seq<Seq<char>>) -> Result<MoveView, InvalidMoveCommand> {
    if w.len() < 2 {
        missing(Parameter::MergeKind)
    } else {
        match kind_named(w[1]) {
            None => invalid(Parameter::MergeKind),
            Some(kind) => match merge_cost(kind) {
                None => Err(InvalidMoveCommand::InvalidMove(InvalidMove::InvalidMergeKind)),
                Some(cost) => {
                    if w.len() < 3 || !same_word(w[2], seq!['a', 't']) {
                        missing(Parameter::AtKeyword)
                    } else if w.len() < 4 {
                        missing(Parameter::Destination)
                    } else if pos_of(w[3]) is None {
                        invalid(Parameter::Position)
                    } else if w.len() < 5 || !same_word(w[4], seq!['w', 'i', 't', 'h']) {
                        missing(Parameter::WithKeyword)
                    } else {
                        let listed = listed_words(w, cost);
                        if exists|j: int| 0 <= j < listed.len() && #[trigger] pos_of(listed[j]) is None {
                            invalid(Parameter::Position)
                        } else if listed.len() != cost - 1 {
                            Err(InvalidMoveCommand::InvalidMove(InvalidMove::InvalidMergeCount(cost)))
                        } else {
                            Ok(
                                MoveView::Merge {
                                    kind,
                                    pieces: listed.map_values(|t: Seq<char>| pos_of(t)->0).push(
                                        pos_of(w[3])->0,
                                    ),
                                },
                            )
                        }
                    }
                },
            },
        }
    }
}

/// The move that the words of a command describe, case ignored:
/// `move <pos> to <pos>`, `merge <kind> at <pos> with <pos> ...`,
/// `resign` (or `exit`, `quit`), `draw` and `decline`. Words after a complete
/// command are ignored.
pub open spec fn parse_words(w: Seq<Seq<char>>) -> Result<MoveView, InvalidMoveCommand> {
    if w.len() == 0 {
        missing(Parameter::Verb)
    } else if same_word(w[0], seq!['r', 'e', 's', 'i', 'g', 'n']) || same_word(
        w[0],
        seq!['e', 'x', 'i', 't'],
    ) || same_word(w[0], seq!['q', 'u', 'i', 't']) {
        Ok(MoveView::Resign)
    } else if same_word(w[0], seq!['d', 'r', 'a', 'w']) {
        Ok(MoveView::Draw)
    } else if same_word(w[0], seq!['d', 'e', 'c', 'l', 'i', 'n', 'e']) {
        Ok(MoveView::DeclineDraw)
    } else if same_word(w[0], seq!['m', 'o', 'v', 'e']) {
        parse_relocation(w)
    } else if same_word(w[0], seq!['m', 'e', 'r', 'g', 'e']) {
        parse_merge(w)
    } else {
        syntax_error(InvalidMoveSyntax::UnknownMove)
    }
}

/// The character sequences of a list of words.
pub open spec fn views(v: Seq<Vec<char>>) -> Seq<Seq<char>> {
    v.map_values(|w: Vec<char>| w@)
}

/// Whether `c` is white space.
pub fn is_space_char(c: char) -> (r: bool)
    ensures
        r == is_space(c),
{
    ('\t' <= c && c <= '\r') || c == ' ' || c == '\u{85}' || c == '\u{a0}' || c == '\u{1680}' || (
    '\u{2000}' <= c && c <= '\u{200a}') || c == '\u{2028}' || c == '\u{2029}' || c == '\u{202f}'
        || c == '\u{205f}' || c == '\u{3000}'
}

/// Splits `s` into its words.
pub fn split_words(s: &str) -> (r: Vec<Vec<char>>)
    ensures
        views(r@) == words(s@),
{
    let n = s.unicode_len();
    let mut done: Vec<Vec<char>> = Vec::new();
    let mut cur: Vec<char> = Vec::new();
    let mut i: usize = 0;
    while i < n
        invariant
            n == s@.len(),
            i <= n,
            (i > 0 && !is_space(s@[i - 1])) ==> cur@.len() > 0 && words(s@.take(i as int))
                == views(done@).push(cur@),
            !(i > 0 && !is_space(s@[i - 1])) ==> cur@.len() == 0 && words(s@.take(i as int))
                == views(done@),
        decreases n - i,
    {
        let c = s.get_char(i);
        let ghost t = s@.take(i + 1);
        assert(t.drop_last() =~= s@.take(i as int));
        assert(t.last() == c);
        if is_space_char(c) {
            if cur.len() > 0 {
                let ghost d = done@;
                let ghost w = cur@;
                done.push(cur);
                cur = Vec::new();
                assert(views(done@) =~= views(d).push(w));
            }
        } else if cur.len() > 0 {
            assert(t[t.len() - 2] == s@[i - 1]);
            let ghost prev = views(done@).push(cur@);
            cur.push(c);
            assert(prev.update(prev.len() - 1, prev.last().push(c)) =~= views(done@).push(cur@));
        } else {
            cur.push(c);
            assert(cur@ =~= seq![c]);
        }
        i += 1;
    }
    assert(s@.take(n as int) =~= s@);
    if cur.len() > 0 {
        let ghost d = done@;
        let ghost w = cur@;
        done.push(cur);
        assert(views(done@) =~= views(d).push(w));
    }
    done
}

/// The cell that a word names, if it is two digits.
pub fn word_pos(t: &[char]) -> (r: Option<Pos>)
    ensures
        r == pos_of(t@),
        r matches Some(p) ==> p.valid(),
{
    if t.len() != 2 {
        return None;
    }
    let a = t[0];
    let b = t[1];
    if '0' <= a && a <= '9' && '0' <= b && b <= '9' {
        let v = (a as u32 - '0' as u32) * 10 + (b as u32 - '0' as u32);
        Some(Pos(v as i8))
    } else {
        None
    }
}

impl Move {
    /// Reads a move command: its words, separated by white space and read without
    /// regard to case, as `parse_words` describes.
    pub fn parse(s: &str) -> (r: Result<Move, InvalidMoveCommand>)
        ensures
            match parse_words(words(s@)) {
                Ok(m) => r matches Ok(mv) && mv@ == m,
                Err(e) => r == Err::<Move, InvalidMoveCommand>(e),
            },
            r matches Ok(mv) ==> mv@.cells_valid(),
    {
        let w = split_words(s);
        let ghost ws = words(s@);
        assert(forall|j: int| 0 <= j < w@.len() ==> (#[trigger] w@[j])@ == ws[j]);
        if w.len() == 0 {
            return Err(
                InvalidMoveCommand::InvalidSyntax(
                    InvalidMoveSyntax::MissingParameter(Parameter::Verb),
                ),
            );
        }
        let verb = w[0].as_slice();
        if word_matches(verb, &['r', 'e', 's', 'i', 'g', 'n']) || word_matches(
            verb,
            &['e', 'x', 'i', 't'],
        ) || word_matches(verb, &['q', 'u', 'i', 't']) {
            Ok(Move::Resign)
        } else if word_matches(verb, &['d', 'r', 'a', 'w']) {
            Ok(Move::Draw)
        } else if word_matches(verb, &['d', 'e', 'c', 'l', 'i', 'n', 'e']) {
            Ok(Move::DeclineDraw)
        } else if word_matches(verb, &['m', 'o', 'v', 'e']) {
            Self::parse_relocation(&w)
        } else if word_matches(verb, &['m', 'e', 'r', 'g', 'e']) {
            Self::parse_merge(&w)
        } else {
            Err(InvalidMoveCommand::InvalidSyntax(InvalidMoveSyntax::UnknownMove))
        }
    }

    fn parse_relocation(w: &Vec<Vec<char>>) -> (r: Result<Move, InvalidMoveCommand>)
        ensures
            match parse_relocation(views(w@)) {
                Ok(m) => r matches Ok(mv) && mv@ == m,
                Err(e) => r == Err::<Move, InvalidMoveCommand>(e),
            },
            r matches Ok(mv) ==> mv@.cells_valid(),
    {
        let ghost ws = views(w@);
        let syntax = |e: InvalidMoveSyntax| -> (r: Result<Move, InvalidMoveCommand>)
            ensures
                r == Err::<Move, InvalidMoveCommand>(InvalidMoveCommand::InvalidSyntax(e)),
            { Err(InvalidMoveCommand::InvalidSyntax(e)) };
        if w.len() < 2 {
            return syntax(InvalidMoveSyntax::MissingParameter(Parameter::From));
        }
        let from = match word_pos(w[1].as_slice()) {
            Some(p) => p,
            None => return syntax(InvalidMoveSyntax::InvalidParameter(Parameter::Position)),
        };
        if w.len() < 3 {
            return syntax(InvalidMoveSyntax::MissingParameter(Parameter::ToKeyword));
        }
        if !word_matches(w[2].as_slice(), &['t', 'o']) {
            return syntax(InvalidMoveSyntax::InvalidParameter(Parameter::ToKeyword));
        }
        if w.len() < 4 {
            return syntax(InvalidMoveSyntax::MissingParameter(Parameter::To));
        }
        let to = match word_pos(w[3].as_slice()) {
            Some(p) => p,
            None => return syntax(InvalidMoveSyntax::InvalidParameter(Parameter::Position)),
        };
        Ok(Move::Move { from, to })
    }

    fn parse_merge(w: &Vec<Vec<char>>) -> (r: Result<Move, InvalidMoveCommand>)
        ensures
            match parse_merge(views(w@)) {
                Ok(m) => r matches Ok(mv) && mv@ == m,
                Err(e) => r == Err::<Move, InvalidMoveCommand>(e),
            },
            r matches Ok(mv) ==> mv@.cells_valid(),
    {
        let ghost ws = views(w@);
        let syntax = |e: InvalidMoveSyntax| -> (r: Result<Move, InvalidMoveCommand>)
            ensures
                r == Err::<Move, InvalidMoveCommand>(InvalidMoveCommand::InvalidSyntax(e)),
            { Err(InvalidMoveCommand::InvalidSyntax(e)) };
        if w.len() < 2 {
            return syntax(InvalidMoveSyntax::MissingParameter(Parameter::MergeKind));
        }
        let kind = match PieceKind::from_name(w[1].as_slice()) {
            Ok(k) => k,
            Err(UnknownPiece) => return syntax(
                InvalidMoveSyntax::InvalidParameter(Parameter::MergeKind),
            ),
        };
        let cost = match kind.merge_costs() {
            Some(c) => c,
            None => return Err(InvalidMoveCommand::InvalidMove(InvalidMove::InvalidMergeKind)),
        };
        if w.len() < 3 || !word_matches(w[2].as_slice(), &['a', 't']) {
            return syntax(InvalidMoveSyntax::MissingParameter(Parameter::AtKeyword));
        }
        if w.len() < 4 {
            return syntax(InvalidMoveSyntax::MissingParameter(Parameter::Destination));
        }
        let dest = match word_pos(w[3].as_slice()) {
            Some(p) => p,
            None => return syntax(InvalidMoveSyntax::InvalidParameter(Parameter::Position)),
        };
        if w.len() < 5 || !word_matches(w[4].as_slice(), &['w', 'i', 't', 'h']) {
            return syntax(InvalidMoveSyntax::MissingParameter(Parameter::WithKeyword));
        }
        let ghost listed = listed_words(ws, cost);
        let end = if w.len() - 5 <= cost {
            w.len()
        } else {
            5 + cost
        };
        assert(listed.len() == end - 5);
        let mut pieces: Vec<Pos> = Vec::new();
        let mut i: usize = 5;
        while i < end
            invariant
                5 <= i <= end <= w@.len(),
                ws == views(w@),
                ws.len() == w@.len(),
                kind_named(ws[1]) == Some(kind),
                merge_cost(kind) == Some(cost),
                same_word(ws[2], seq!['a', 't']),
                pos_of(ws[3]) == Some(dest),
                dest.valid(),
                same_word(ws[4], seq!['w', 'i', 't', 'h']),
                listed == listed_words(ws, cost),
                listed.len() == end - 5,
                forall|j: int| 0 <= j < listed.len() ==> listed[j] == ws[j + 5],
                pieces@ == listed.take(i - 5).map_values(|t: Seq<char>| pos_of(t)->0),
                forall|j: int| 0 <= j < i - 5 ==> pos_of(#[trigger] listed[j]) is Some,
                forall|j: int| 0 <= j < pieces@.len() ==> (#[trigger] pieces@[j]).valid(),
            decreases end - i,
        {
            assert(ws[i as int] == w@[i as int]@);
            match word_pos(w[i].as_slice()) {
                Some(p) => {
                    pieces.push(p);
                    assert(listed.take(i + 1 - 5) =~= listed.take(i - 5).push(listed[i - 5]));
                    assert(pieces@ =~= listed.take(i + 1 - 5).map_values(
                        |t: Seq<char>| pos_of(t)->0,
                    ));
                },
                None => {
                    assert(pos_of(listed[i - 5]) is None);
                    return Err(
                        InvalidMoveCommand::InvalidSyntax(
                            InvalidMoveSyntax::InvalidParameter(Parameter::Position),
                        ),
                    );
                },
            }
            i += 1;
        }
        assert(listed.take(end - 5) =~= listed);
        if pieces.len() != cost - 1 {
            return Err(InvalidMoveCommand::InvalidMove(InvalidMove::InvalidMergeCount(cost)));
        }
        pieces.push(dest);
        Ok(Move::Merge { kind, pieces })
    }
}

impl core::str::FromStr for Move {
    type Err = InvalidMoveCommand;

    fn from_str(s: &str) -> Result<Move, InvalidMoveCommand> {
        Move::parse(s)
    }
}

} // verus!
