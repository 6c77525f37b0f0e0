use kelasu_game::board::{Board, Pos};
use kelasu_game::game::{GameState, Winner};
use kelasu_game::moves::Move;
use kelasu_game::piece::Team;
use kelasu_game::util::{verify_polyomino, NonPolyomino};
use kelasu_game::Game;

fn board(text: &str) -> Board {
    text.parse().unwrap()
}

#[test]
fn board_test_dir_to() {
    assert_eq!(None, Pos(00).dir_to(Pos(21)));
    assert_eq!(None, Pos(21).dir_to(Pos(00)));
    assert_eq!(None, Pos(00).dir_to(Pos(00)));
}

#[test]
fn test_verify_polyomino() {
    let mut pieces = [09, 10].map(Pos);
    assert_eq!(
        verify_polyomino(&mut pieces),
        Err(NonPolyomino::Disconnected),
        "You still have the wraparound bug"
    );

    let mut pieces = [09, 08, 07, 18].map(Pos);
    assert_eq!(verify_polyomino(&mut pieces), Ok(()), "T tetromino pls",);
}

#[test]
fn tests_test_diplomat() {
    let mut game = Game::from_position(
        Team::Blue,
        board(
            "
            sS........
            ..........
            .w........
            D.........
            ..........
            ..........
            ..........
            ....W..d..
            ..........
            ..........
        ",
        ),
    );
    game.make_move(
        game.verify_move(Move::Move {
            from: Pos(30),
            to: Pos(21),
        })
        .unwrap(),
    );
    assert_eq!(
        game.board,
        board(
            "
            sS........
            ..........
            .W........
            ..........
            ..........
            ..........
            ..........
            ....W..d..
            ..........
            ..........
        "
        )
    );
    game.verify_move(Move::Move {
        from: Pos(77),
        to: Pos(74),
    })
    .unwrap_err();
    game.make_move(
        game.verify_move(Move::Move {
            from: Pos(77),
            to: Pos(47),
        })
        .unwrap(),
    );
    assert_eq!(
        game.board,
        board(
            "
            sS........
            ..........
            .W........
            ..........
            .......d..
            ..........
            ..........
            ....W.....
            ..........
            ..........
        "
        )
    );
}

#[test]
fn tests_test_reverse_move() {
    let game = Game::from_position(
        Team::Red,
        board(
            "
            w.........
            ..........
            ..........
            ..........
            ..........
            ..........
            ..........
            ..........
            ..........
            ..........
        ",
        ),
    );
    game.verify_move(Move::Move {
        from: Pos(00),
        to: Pos(10),
    })
    .unwrap_err();
}

#[test]
fn tests_test_recall() {
    let mut game = Game::from_position(
        Team::Red,
        board(
            "
            w.........
            ..........
            ..........
            ..........
            ..........
            ..........
            ..........
            ..........
            ..........
            ..........
        ",
        ),
    );
    game.make_move(
        game.verify_move(Move::Move {
            from: Pos(00),
            to: Pos(90),
        })
        .unwrap(),
    );
    assert_eq!(
        game.board,
        board(
            "
            ..........
            ..........
            ..........
            ..........
            ..........
            ..........
            ..........
            ..........
            ..........
            w.........
        "
        ),
    );
}

#[test]
fn test_repetition() {
    let mut game = Game::from_position(
        Team::Blue,
        board(
            "
            W........S
            ..........
            ..........
            ..........
            ..........
            ..........
            ..........
            ..........
            ..........
            w........s
        ",
        ),
    );
    // go back and forth 3 times
    for _ in 0..3 {
        game.make_move(
            game.verify_move(Move::Move {
                from: Pos(00),
                to: Pos(01),
            })
            .unwrap(),
        );
        game.make_move(
            game.verify_move(Move::Move {
                from: Pos(90),
                to: Pos(91),
            })
            .unwrap(),
        );

        game.make_move(
            game.verify_move(Move::Move {
                from: Pos(01),
                to: Pos(00),
            })
            .unwrap(),
        );
        game.make_move(
            game.verify_move(Move::Move {
                from: Pos(91),
                to: Pos(90),
            })
            .unwrap(),
        );
    }
    // go back one more time
    game.make_move(
        game.verify_move(Move::Move {
            from: Pos(00),
            to: Pos(01),
        })
        .unwrap(),
    );
    // draw
    assert_eq!(game.state, GameState::Finished(Winner(None)));
}

#[test]
fn board_test_diplomat() {
    let mut game = Game::from_position(
        Team::Blue,
        board(
            "
            sS........
            ..........
            .w........
            D.........
            ..........
            ..........
            ..........
            ....w..D..
            ..........
            ..........
        ",
        ),
    );
    game.power = 4;
    game.make_move(
        game.verify_move(Move::Move {
            from: Pos(30),
            to: Pos(21),
        })
        .unwrap(),
    );
    assert_eq!(
        game.board,
        board(
            "
        sS........
        ..........
        .W........
        ..........
        ..........
        ..........
        ..........
        ....w..D..
        ..........
        ..........
        "
        )
    );
    game.verify_move(Move::Move {
        from: Pos(77),
        to: Pos(74),
    })
    .unwrap_err();
    game.make_move(
        game.verify_move(Move::Move {
            from: Pos(77),
            to: Pos(47),
        })
        .unwrap(),
    );
    assert_eq!(
        game.board,
        board(
            "
        sS........
        ..........
        .W........
        ..........
        .......D..
        ..........
        ..........
        ....w.....
        ..........
        ..........
        "
        )
    );
}

#[test]
fn board_test_reverse_move() {
    let mut game = Game::from_position(
        Team::Red,
        board(
            "
            w.........
            ..........
            ..........
            ..........
            ..........
            ..........
            ..........
            ..........
            ..........
            ..........
        ",
        ),
    );
    game.power = 4;
    game.verify_move(Move::Move {
        from: Pos(00),
        to: Pos(10),
    })
    .unwrap_err();
}

#[test]
fn board_test_recall() {
    let mut game = Game::from_position(
        Team::Red,
        board(
            "
            w.........
            ..........
            ..........
            ..........
            ..........
            ..........
            ..........
            ..........
            ..........
            ..........
        ",
        ),
    );
    game.power = 4;
    println!("{:?}\n{}", game.state, game.board.layout());
    game.make_move(
        game.verify_move(Move::Move {
            from: Pos(00),
            to: Pos(90),
        })
        .unwrap(),
    );
    println!("{:?}\n{}", game.state, game.board.layout());
}
