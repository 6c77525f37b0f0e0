use kelasu_game::board::{Board, BoardParseError, Pos};
use kelasu_game::game::{GameState, Winner};
use kelasu_game::lobby::{assign_seats, seats_swapped, LobbyStatus, TeamPreference};
use kelasu_game::moves::{InvalidMove, InvalidMoveCommand, InvalidMoveSyntax, Move, Parameter};
use kelasu_game::piece::{Icon, InvalidPieceMove, MoveKind, Piece, PieceKind, Team, Tile};
use kelasu_game::util::{verify_polyomino, NonPolyomino};
use kelasu_game::Game;

const START: &str = "
    BBBBBBBBBB
    BBBBBBBBBB
    S.S....S.S
    ..........
    ....::....
    ....::....
    ..........
    s.s....s.s
    bbbbbbbbbb
    bbbbbbbbbb
";

fn board(text: &str) -> Board {
    text.parse().unwrap()
}

fn relocation(game: &Game, from: i8, to: i8) -> Result<(), InvalidMove> {
    game.verify_move(Move::Move { from: Pos(from), to: Pos(to) }).map(|_| ())
}

fn play(game: &mut Game, from: i8, to: i8) {
    let m = game.verify_move(Move::Move { from: Pos(from), to: Pos(to) }).unwrap();
    game.make_move(m);
}

fn piece_err(e: InvalidPieceMove) -> Result<(), InvalidMove> {
    Err(InvalidMove::InvalidPieceMove(e))
}

#[test]
fn dir_to_gives_step_and_distance() {
    assert_eq!(Pos(0).dir_to(Pos(99)), Some(([1, 1], 9)));
    assert_eq!(Pos(55).dir_to(Pos(25)), Some(([0, -1], 3)));
    assert_eq!(Pos(47).dir_to(Pos(40)), Some(([-1, 0], 7)));
    assert_eq!(Pos(9).dir_to(Pos(90)), Some(([-1, 1], 9)));
    assert_eq!(Pos(9).dir_to(Pos(10)), None);
    for p in 0..100 {
        assert_eq!(Pos(p).dir_to(Pos(p)), None);
    }
}

#[test]
fn dir_to_is_defined_both_ways() {
    for a in 0..100 {
        for b in 0..100 {
            assert_eq!(Pos(a).dir_to(Pos(b)).is_some(), Pos(b).dir_to(Pos(a)).is_some());
        }
    }
}

#[test]
fn shift_never_wraps() {
    assert_eq!(Pos(9).shift(1, 0), None);
    assert_eq!(Pos(19).shift(1, 0), None);
    assert_eq!(Pos(90).shift(0, 1), None);
    assert_eq!(Pos(10).shift(-1, 0), None);
    assert_eq!(Pos(5).shift(0, -1), None);
    assert_eq!(Pos(5).shift(1, 1), Some(Pos(16)));
    assert_eq!(Pos(18).shift(1, 0), Some(Pos(19)));
    assert_eq!(Pos(55).shift(-2, -3), Some(Pos(23)));
}

#[test]
fn default_layout_round_trips() {
    let parsed = board(START);
    assert_eq!(parsed, Board::new());
    let text = parsed.layout();
    let expected = "BBBBBBBBBB\nBBBBBBBBBB\nS.S....S.S\n..........\n....::....\n....::....\n..........\ns.s....s.s\nbbbbbbbbbb\nbbbbbbbbbb\n";
    assert_eq!(text, expected);
    assert_eq!(board(&text), parsed);
    let strip = |s: &str| s.chars().filter(|c| !c.is_whitespace()).collect::<String>();
    assert_eq!(strip(&text), strip(START));
}

#[test]
fn layout_of_empty_board_marks_the_center() {
    let text = Board::default().layout();
    assert_eq!(&text[44..50], "....::");
    assert_eq!(text.len(), 110);
}

#[test]
fn board_parse_errors() {
    assert_eq!(Board::parse("x"), Err(BoardParseError::InvalidTile));
    assert_eq!(Board::parse(&".".repeat(99)), Err(BoardParseError::NotEnoughTiles));
    assert_eq!(Board::parse(&".".repeat(101)), Err(BoardParseError::TooManyTiles));
    let mut bad = ".".repeat(150);
    bad.push('?');
    assert_eq!(Board::parse(&bad), Err(BoardParseError::InvalidTile));
    assert!(Board::parse(&"_".repeat(100)).is_ok());
}

#[test]
fn counts_on_the_starting_board() {
    let b = Board::new();
    assert_eq!(b.piece_count(Team::Blue), 20);
    assert_eq!(b.piece_count(Team::Red), 20);
    assert_eq!(b.stone_count(Team::Blue), 4);
    assert_eq!(b.stone_count(Team::Red), 4);
    assert_eq!(Board::default().stone_count(Team::Blue), 0);
}

#[test]
fn piece_tables() {
    assert_eq!(PieceKind::Warrior.merge_costs(), Some(2));
    assert_eq!(PieceKind::Runner.merge_costs(), Some(4));
    assert_eq!(PieceKind::Diplomat.merge_costs(), Some(4));
    assert_eq!(PieceKind::Champion.merge_costs(), Some(5));
    assert_eq!(PieceKind::General.merge_costs(), Some(10));
    assert_eq!(PieceKind::Stone.merge_costs(), Some(21));
    assert_eq!(PieceKind::Blank.merge_costs(), None);
    let w = PieceKind::Warrior.moves();
    assert_eq!(w[0], (MoveKind::MoveCapture, 1));
    assert_eq!(w[4], (MoveKind::Recall, 9));
    let red = Piece { team: Team::Red, kind: PieceKind::Warrior }.moves();
    assert_eq!(red[0], (MoveKind::Recall, 9));
    assert_eq!(red[4], (MoveKind::MoveCapture, 1));
    assert_eq!(red[1], (MoveKind::CaptureOnly, 1));
    assert_eq!(Piece::ray_index(0, 1), Some(0));
    assert_eq!(Piece::ray_index(-1, 1), Some(1));
    assert_eq!(Piece::ray_index(1, 0), Some(2));
    assert_eq!(Piece::ray_index(-1, -1), Some(3));
    assert_eq!(Piece::ray_index(0, -1), Some(4));
    assert_eq!(Piece::ray_index(0, 0), None);
    assert_eq!(Piece::ray_index(2, 0), None);
}

#[test]
fn icons_and_glyphs() {
    let blue = Piece { team: Team::Blue, kind: PieceKind::General };
    let red = Piece { team: Team::Red, kind: PieceKind::Champion };
    assert_eq!(blue.icon(), 'G');
    assert_eq!(red.icon(), 'c');
    assert_eq!(Tile(None).icon(), ' ');
    assert_eq!(Tile::from_glyph('d'), Some(Tile(Some(Piece { team: Team::Red, kind: PieceKind::Diplomat }))));
    assert_eq!(Tile::from_glyph(':'), Some(Tile(None)));
    assert_eq!(Tile::from_glyph('x'), None);
    let mut t = Team::Blue;
    t.flip();
    assert_eq!(t, Team::Red);
    assert_eq!(Team::default(), Team::Blue);
}

#[test]
fn kind_names_ignore_case() {
    let chars = |s: &str| s.chars().collect::<Vec<char>>();
    assert_eq!(PieceKind::from_name(&chars("GeNeRaL")), Ok(PieceKind::General));
    assert_eq!(PieceKind::from_name(&chars("stone")), Ok(PieceKind::Stone));
    assert!(PieceKind::from_name(&chars("stones")).is_err());
}

#[test]
fn parse_simple_commands() {
    assert!(matches!("resign".parse::<Move>(), Ok(Move::Resign)));
    assert!(matches!("  QUIT now".parse::<Move>(), Ok(Move::Resign)));
    assert!(matches!("exit".parse::<Move>(), Ok(Move::Resign)));
    assert!(matches!("Draw".parse::<Move>(), Ok(Move::Draw)));
    assert!(matches!("decline".parse::<Move>(), Ok(Move::DeclineDraw)));
    match "MOVE 30\tTO 21".parse::<Move>() {
        Ok(Move::Move { from, to }) => {
            assert_eq!(from, Pos(30));
            assert_eq!(to, Pos(21));
        }
        other => panic!("unexpected {other:?}"),
    }
}

#[test]
fn parse_merge_command() {
    match Move::parse("merge runner at 55 with 45 46 56") {
        Ok(Move::Merge { kind, pieces }) => {
            assert_eq!(kind, PieceKind::Runner);
            assert_eq!(pieces, vec![Pos(45), Pos(46), Pos(56), Pos(55)]);
        }
        other => panic!("unexpected {other:?}"),
    }
}

#[test]
fn parse_errors() {
    let syntax = |e| Err(InvalidMoveCommand::InvalidSyntax(e));
    let missing = |p| syntax(InvalidMoveSyntax::MissingParameter(p));
    let invalid = |p| syntax(InvalidMoveSyntax::InvalidParameter(p));
    let parse = |s: &str| Move::parse(s).map(|_| ());
    assert_eq!(parse("   "), missing(Parameter::Verb));
    assert_eq!(parse("jump"), syntax(InvalidMoveSyntax::UnknownMove));
    assert_eq!(parse("move"), missing(Parameter::From));
    assert_eq!(parse("move 3"), invalid(Parameter::Position));
    assert_eq!(parse("move +5 to 21"), invalid(Parameter::Position));
    assert_eq!(parse("move 30"), missing(Parameter::ToKeyword));
    assert_eq!(parse("move 30 into 21"), invalid(Parameter::ToKeyword));
    assert_eq!(parse("move 30 to"), missing(Parameter::To));
    assert_eq!(parse("move 30 to 2x"), invalid(Parameter::Position));
    assert_eq!(parse("merge"), missing(Parameter::MergeKind));
    assert_eq!(parse("merge dragon"), invalid(Parameter::MergeKind));
    assert_eq!(parse("merge blank at 55 with 45"), Err(InvalidMoveCommand::InvalidMove(InvalidMove::InvalidMergeKind)));
    assert_eq!(parse("merge warrior"), missing(Parameter::AtKeyword));
    assert_eq!(parse("merge warrior on 55"), missing(Parameter::AtKeyword));
    assert_eq!(parse("merge warrior at"), missing(Parameter::Destination));
    assert_eq!(parse("merge warrior at 555"), invalid(Parameter::Position));
    assert_eq!(parse("merge warrior at 55"), missing(Parameter::WithKeyword));
    assert_eq!(parse("merge warrior at 55 and 45"), missing(Parameter::WithKeyword));
    assert_eq!(parse("merge warrior at 55 with ab"), invalid(Parameter::Position));
    assert_eq!(parse("merge warrior at 55 with"), Err(InvalidMoveCommand::InvalidMove(InvalidMove::InvalidMergeCount(2))));
    assert_eq!(parse("merge runner at 55 with 45 46 56 57"), Err(InvalidMoveCommand::InvalidMove(InvalidMove::InvalidMergeCount(4))));
    assert_eq!(parse("merge warrior at 55 with 45"), Ok(()));
}

#[test]
fn polyomino_shapes() {
    let mut l = [31, 41, 51, 52].map(Pos);
    assert_eq!(verify_polyomino(&mut l), Ok(()));
    let mut t = [44, 45, 46, 55].map(Pos);
    assert_eq!(verify_polyomino(&mut t), Ok(()));
    let mut dup = [44, 45, 45].map(Pos);
    assert_eq!(verify_polyomino(&mut dup), Err(NonPolyomino::Duplicated));
    let mut diagonal = [44, 55].map(Pos);
    assert_eq!(verify_polyomino(&mut diagonal), Err(NonPolyomino::Disconnected));
    let mut single = [44].map(Pos);
    assert_eq!(verify_polyomino(&mut single), Ok(()));
    let mut wrap = [19, 20].map(Pos);
    assert_eq!(verify_polyomino(&mut wrap), Err(NonPolyomino::Disconnected));
}

#[test]
fn piece_move_errors() {
    let game = Game::from_position(
        Team::Blue,
        board(
            "
            ..........
            ..........
            S.........
            W..b..W...
            .B........
            ..r.......
            ...G.....b
            R.........
            ..........
            .........s
        ",
        ),
    );
    assert_eq!(relocation(&game, 0, 1), Err(InvalidMove::EmptyTile));
    assert_eq!(relocation(&game, 33, 34), Err(InvalidMove::NotYourPiece));
    assert_eq!(relocation(&game, 30, 51), piece_err(InvalidPieceMove::NonCompassMove));
    assert_eq!(relocation(&game, 30, 50), piece_err(InvalidPieceMove::TooFar));
    assert_eq!(relocation(&game, 30, 20), piece_err(InvalidPieceMove::FriendlyFire));
    assert_eq!(relocation(&game, 30, 41), piece_err(InvalidPieceMove::FriendlyFire));
    assert_eq!(relocation(&game, 36, 47), piece_err(InvalidPieceMove::MustCapture));
    assert_eq!(relocation(&game, 30, 21), piece_err(InvalidPieceMove::TooFar));
    assert_eq!(relocation(&game, 30, 10), piece_err(InvalidPieceMove::CannotRecallHere));
    assert_eq!(relocation(&game, 30, 40), Ok(()));
    assert_eq!(relocation(&game, 41, 51), Ok(()));
    assert_eq!(relocation(&game, 41, 40), Ok(()));
    assert_eq!(relocation(&game, 41, 31), piece_err(InvalidPieceMove::TooFar));
    assert_eq!(relocation(&game, 63, 69), Ok(()));
    assert_eq!(relocation(&game, 63, 68), Ok(()));
    assert_eq!(relocation(&game, 63, 33), Ok(()));
    assert_eq!(relocation(&game, 63, 23), piece_err(InvalidPieceMove::Blocked));
    assert_eq!(relocation(&game, 63, 43), Ok(()));
    assert_eq!(relocation(&game, 70, 52), Ok(()));
    assert_eq!(relocation(&game, 70, 51), piece_err(InvalidPieceMove::NonCompassMove));
    assert_eq!(relocation(&game, 70, 80), piece_err(InvalidPieceMove::TooFar));
}

#[test]
fn runner_cannot_capture_at_range_one() {
    let game = Game::from_position(
        Team::Blue,
        board(
            "
            S.........
            ..........
            ..........
            ....R.....
            ...b.b....
            ..........
            .......b..
            ..........
            ..........
            .........s
        ",
        ),
    );
    assert_eq!(relocation(&game, 34, 43), piece_err(InvalidPieceMove::NoMelee));
    assert_eq!(relocation(&game, 34, 45), piece_err(InvalidPieceMove::NoMelee));
    assert_eq!(relocation(&game, 34, 34), piece_err(InvalidPieceMove::NonCompassMove));
    assert_eq!(relocation(&game, 34, 35), piece_err(InvalidPieceMove::TooFar));
    assert_eq!(relocation(&game, 34, 56), piece_err(InvalidPieceMove::Blocked));
    let open = Game::from_position(
        Team::Blue,
        board(
            "
            S.........
            ..........
            ..........
            ....R.....
            ..........
            ..........
            .......b..
            ..........
            ..........
            .........s
        ",
        ),
    );
    assert_eq!(relocation(&open, 34, 67), Ok(()));
    assert_eq!(relocation(&open, 34, 23), Ok(()));
}

#[test]
fn recall_must_cover_the_full_range() {
    let game = Game::from_position(
        Team::Red,
        board(
            "
            w.........
            B.........
            ..........
            S.........
            ..........
            ..........
            ..........
            ..........
            ..........
            .........s
        ",
        ),
    );
    assert_eq!(relocation(&game, 0, 50), piece_err(InvalidPieceMove::CannotRecallHere));
    assert_eq!(relocation(&game, 0, 80), piece_err(InvalidPieceMove::CannotRecallHere));
    assert_eq!(relocation(&game, 0, 90), Ok(()));
}

#[test]
fn draw_offer_cycle() {
    let mut game = Game::new();
    assert!(game.is_ongoing());
    assert_eq!(game.power, 4);
    assert!(matches!(game.verify_move(Move::DeclineDraw), Err(InvalidMove::DrawNotOffered)));
    let offer = game.verify_move(Move::Draw).unwrap();
    game.make_move(offer);
    assert_eq!(game.state, GameState::Ongoing { draw_offered: true });
    assert_eq!(game.turn, Team::Red);
    assert_eq!(game.power, 4);
    assert!(matches!(game.verify_move(Move::Move { from: Pos(70), to: Pos(60) }), Err(InvalidMove::DrawOffered)));
    let decline = game.verify_move(Move::DeclineDraw).unwrap();
    game.make_move(decline);
    assert_eq!(game.state, GameState::Ongoing { draw_offered: false });
    assert_eq!(game.turn, Team::Blue);
    game.make_move(game.verify_move(Move::Draw).unwrap());
    game.make_move(game.verify_move(Move::Draw).unwrap());
    assert_eq!(game.state, GameState::Finished(Winner(None)));
    assert!(!game.is_ongoing());
    assert!(matches!(game.verify_move(Move::Resign), Err(InvalidMove::GameOver)));
}

#[test]
fn resign_gives_the_other_side_the_win() {
    let mut game = Game::new();
    game.make_move(game.verify_move_str("resign").unwrap());
    assert_eq!(game.state, GameState::Finished(Winner(Some(Team::Red))));
}

#[test]
fn verify_move_str_reports_both_kinds_of_error() {
    let game = Game::new();
    assert_eq!(
        game.verify_move_str("move 20 to 20").map(|_| ()),
        Err(InvalidMoveCommand::InvalidMove(InvalidMove::InvalidPieceMove(InvalidPieceMove::NonCompassMove)))
    );
    assert_eq!(
        game.verify_move_str("hop").map(|_| ()),
        Err(InvalidMoveCommand::InvalidSyntax(InvalidMoveSyntax::UnknownMove))
    );
    assert!(game.verify_move_str("move 10 to 30").is_err());
    assert!(game.verify_move_str("move 10 to 20").is_err());
    assert!(game.verify_move_str("move 11 to 31").is_err());
}

#[test]
fn merge_rules() {
    let game = Game::from_position(
        Team::Blue,
        board(
            "
            BB........
            BB........
            S.........
            BBB.......
            BR........
            ..........
            ..........
            ..........
            ......b...
            .........s
        ",
        ),
    );
    let merge = |kind, cells: &[i8]| {
        game.verify_move(Move::Merge { kind, pieces: cells.iter().map(|&p| Pos(p)).collect() }).map(|_| ())
    };
    assert_eq!(merge(PieceKind::Warrior, &[30, 31]), Ok(()));
    assert_eq!(merge(PieceKind::Runner, &[30, 31, 32, 40]), Ok(()));
    assert_eq!(merge(PieceKind::Warrior, &[30, 32]), Err(InvalidMove::NonPolyominoMerge(NonPolyomino::Disconnected)));
    assert_eq!(merge(PieceKind::Warrior, &[30, 30]), Err(InvalidMove::NonPolyominoMerge(NonPolyomino::Duplicated)));
    assert_eq!(merge(PieceKind::Warrior, &[30, 41]), Err(InvalidMove::InvalidPieceMove(InvalidPieceMove::NonBlankMerge)));
    assert_eq!(merge(PieceKind::Warrior, &[30, 33]), Err(InvalidMove::EmptyTile));
    assert_eq!(merge(PieceKind::Warrior, &[30, 86]), Err(InvalidMove::NotYourPiece));
    assert_eq!(merge(PieceKind::Warrior, &[10, 11]), Err(InvalidMove::HomeMerge));
    assert_eq!(merge(PieceKind::Warrior, &[30, 31, 32]), Err(InvalidMove::InvalidMergeCount(2)));
    assert_eq!(merge(PieceKind::Blank, &[30, 31]), Err(InvalidMove::InvalidMergeKind));
}

#[test]
fn red_home_rows_are_rows_eight_and_nine() {
    let game = Game::from_position(
        Team::Red,
        board(
            "
            S.........
            ..........
            ..........
            ..........
            ..........
            ..........
            ..........
            bb........
            bb........
            .........s
        ",
        ),
    );
    let merge = |cells: &[i8]| {
        game.verify_move(Move::Merge { kind: PieceKind::Warrior, pieces: cells.iter().map(|&p| Pos(p)).collect() }).map(|_| ())
    };
    assert_eq!(merge(&[70, 71]), Ok(()));
    assert_eq!(merge(&[70, 80]), Err(InvalidMove::HomeMerge));
}

#[test]
fn merge_transforms_the_destination() {
    let mut game = Game::from_position(
        Team::Blue,
        board(
            "
            ..........
            ..........
            SS........
            BBB.......
            B.........
            ..........
            ..........
            ..........
            ..........
            b........s
        ",
        ),
    );
    let m = game
        .verify_move(Move::Merge { kind: PieceKind::Runner, pieces: vec![Pos(30), Pos(31), Pos(40), Pos(32)] })
        .unwrap();
    assert!(matches!(m.get(), Move::Merge { pieces, .. } if pieces.last() == Some(&Pos(32))));
    game.make_move(m);
    assert_eq!(
        game.board,
        board(
            "
            ..........
            ..........
            SS........
            ..R.......
            ..........
            ..........
            ..........
            ..........
            ..........
            b........s
        "
        )
    );
    assert_eq!(game.turn, Team::Red);
    assert_eq!(game.power, 1);
    assert!(game.is_ongoing());
}

#[test]
fn power_spent_passes_the_turn() {
    let mut game = Game::from_position(
        Team::Blue,
        board(
            "
            ..........
            ..........
            S.S.S.....
            W.........
            ..........
            ..........
            ..........
            w.........
            ..........
            s.......s.
        ",
        ),
    );
    assert_eq!(game.power, 3);
    play(&mut game, 30, 40);
    assert_eq!((game.turn, game.power), (Team::Blue, 2));
    play(&mut game, 40, 50);
    assert_eq!((game.turn, game.power), (Team::Blue, 1));
    play(&mut game, 50, 51);
    assert_eq!((game.turn, game.power), (Team::Red, 2));
    play(&mut game, 70, 60);
    assert_eq!((game.turn, game.power), (Team::Red, 1));
    play(&mut game, 60, 61);
    assert_eq!((game.turn, game.power), (Team::Blue, 3));
}

#[test]
fn capturing_the_last_stone_wins() {
    let mut game = Game::from_position(
        Team::Blue,
        board(
            "
            W........S
            s.........
            ..........
            ..........
            ..........
            ..........
            ..........
            ..........
            ..........
            .........w
        ",
        ),
    );
    play(&mut game, 0, 10);
    assert_eq!(game.state, GameState::Finished(Winner(Some(Team::Blue))));
    assert!(game.verify_move(Move::Resign).is_err());
}

#[test]
fn capturing_every_mobile_piece_wins() {
    let mut game = Game::from_position(
        Team::Red,
        board(
            "
            S.........
            ..........
            ..........
            ..........
            ..........
            ..........
            ..........
            ..........
            W.........
            w........s
        ",
        ),
    );
    // Red faces up the board, so its forward step is towards row 0.
    play(&mut game, 90, 80);
    assert_eq!(game.state, GameState::Finished(Winner(Some(Team::Red))));
}

#[test]
fn holding_the_center_wins() {
    let mut game2 = Game::from_position(
        Team::Blue,
        board(
            "
            S.........
            ..........
            ..........
            ....W.....
            .....W....
            ....WW....
            ..........
            ..........
            ..........
            w........s
        ",
        ),
    );
    play(&mut game2, 34, 44);
    assert_eq!(game2.state, GameState::Finished(Winner(Some(Team::Blue))));
}

#[test]
fn lobby_seats() {
    assert!(seats_swapped([TeamPreference::Red, TeamPreference::Blue], false));
    assert!(seats_swapped([TeamPreference::Red, TeamPreference::Either], false));
    assert!(seats_swapped([TeamPreference::Either, TeamPreference::Blue], false));
    assert!(!seats_swapped([TeamPreference::Blue, TeamPreference::Red], true));
    assert!(!seats_swapped([TeamPreference::Blue, TeamPreference::Either], true));
    assert!(!seats_swapped([TeamPreference::Either, TeamPreference::Red], true));
    assert!(seats_swapped([TeamPreference::Blue, TeamPreference::Blue], true));
    assert!(!seats_swapped([TeamPreference::Red, TeamPreference::Red], false));
    assert!(assign_seats([TeamPreference::Red, TeamPreference::Blue]));
    assert!(!assign_seats([TeamPreference::Blue, TeamPreference::Either]));
    assert_eq!(TeamPreference::default(), TeamPreference::Either);
    let status = LobbyStatus::new();
    assert!(status.is_open());
    assert!(!status.is_closed());
    assert!(LobbyStatus::Starting.is_closed());
}

#[test]
fn sixty_five_stagnant_rounds_draw() {
    let mut game = Game::from_position(
        Team::Blue,
        board(
            "
            S........s
            G.........
            ..........
            ..........
            ..........
            ..........
            ..........
            ..........
            ..........
            g.........
        ",
        ),
    );
    // the Blue general snakes through rows 1 to 7, never standing twice on one cell
    let mut path: Vec<i8> = Vec::new();
    for row in 1..8 {
        for col in 0..10 {
            path.push(row * 10 + if row % 2 == 1 { col } else { 9 - col });
        }
    }
    for round in 0..65 {
        assert!(game.is_ongoing(), "round {round}");
        play(&mut game, path[round], path[round + 1]);
        let (from, to) = if round % 2 == 0 { (90, 91) } else { (91, 90) };
        play(&mut game, from, to);
    }
    assert_eq!(game.state, GameState::Finished(Winner(None)));
}

#[test]
fn parsed_moves_compare_by_value() {
    assert_eq!(Move::parse("move 30 to 21"), Ok(Move::Move { from: Pos(30), to: Pos(21) }));
    assert_ne!(Move::parse("move 30 to 22"), Ok(Move::Move { from: Pos(30), to: Pos(21) }));
    assert_eq!(
        Move::parse("merge warrior at 55 with 45"),
        Ok(Move::Merge { kind: PieceKind::Warrior, pieces: vec![Pos(45), Pos(55)] })
    );
    assert_ne!(Move::Resign, Move::Draw);
}
