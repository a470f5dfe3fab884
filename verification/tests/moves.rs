use solver::error::Error;
use solver::moves::{Direction, Move, Position};

fn all_moves() -> Vec<(Move, &'static str)> {
    vec![
        (Move(Position::Front, Direction::Normal), "F"),
        (Move(Position::Front, Direction::Prime), "F'"),
        (Move(Position::Front, Direction::Half), "F2"),
        (Move(Position::Back, Direction::Normal), "B"),
        (Move(Position::Back, Direction::Prime), "B'"),
        (Move(Position::Back, Direction::Half), "B2"),
        (Move(Position::Left, Direction::Normal), "L"),
        (Move(Position::Left, Direction::Prime), "L'"),
        (Move(Position::Left, Direction::Half), "L2"),
        (Move(Position::Right, Direction::Normal), "R"),
        (Move(Position::Right, Direction::Prime), "R'"),
        (Move(Position::Right, Direction::Half), "R2"),
        (Move(Position::Up, Direction::Normal), "U"),
        (Move(Position::Up, Direction::Prime), "U'"),
        (Move(Position::Up, Direction::Half), "U2"),
        (Move(Position::Down, Direction::Normal), "D"),
        (Move(Position::Down, Direction::Prime), "D'"),
        (Move(Position::Down, Direction::Half), "D2"),
    ]
}

#[test]
fn every_move_is_written_in_its_notation() {
    for (action, text) in all_moves() {
        assert_eq!(text, action.to_string());
    }
}

#[test]
fn every_notation_is_read_as_its_move() {
    for (action, text) in all_moves() {
        assert_eq!(Ok(action), Move::from_str(text));
        assert_eq!(Ok(action), text.parse::<Move>());
    }
}

#[test]
fn notation_round_trips() {
    for action in Move::available() {
        assert_eq!(Ok(action), Move::from_str(&action.to_string()));
    }
}

#[test]
fn text_that_is_no_move_is_refused() {
    for text in ["", "X", "u", "F3", "F''", "2F", "'", "U2 ", " U", "UU", "F\u{2019}", "\u{e9}"] {
        assert_eq!(Err(Error::UnknownMove), Move::from_str(text));
    }
    assert_eq!("Unknown move", Error::UnknownMove.message());
}

#[test]
fn available_lists_eighteen_distinct_moves_in_order() {
    let moves = Move::available();
    assert_eq!(18, moves.len());
    assert_eq!(Move(Position::Up, Direction::Normal), moves[0]);
    assert_eq!(Move(Position::Up, Direction::Prime), moves[1]);
    assert_eq!(Move(Position::Up, Direction::Half), moves[2]);
    assert_eq!(Move(Position::Down, Direction::Normal), moves[3]);
    assert_eq!(Move(Position::Left, Direction::Half), moves[8]);
    assert_eq!(Move(Position::Right, Direction::Prime), moves[10]);
    assert_eq!(Move(Position::Front, Direction::Normal), moves[12]);
    assert_eq!(Move(Position::Back, Direction::Half), moves[17]);
    for i in 0..18 {
        for j in 0..i {
            assert_ne!(moves[i], moves[j]);
        }
    }
}

#[test]
fn inverse_swaps_quarter_turns_and_keeps_half_turns() {
    assert_eq!(
        Move(Position::Up, Direction::Prime),
        Move(Position::Up, Direction::Normal).inverse()
    );
    assert_eq!(
        Move(Position::Left, Direction::Normal),
        Move(Position::Left, Direction::Prime).inverse()
    );
    assert_eq!(
        Move(Position::Back, Direction::Half),
        Move(Position::Back, Direction::Half).inverse()
    );
    for action in Move::available() {
        assert_eq!(action, action.inverse().inverse());
        assert_eq!(action.0, action.inverse().0);
    }
}

#[test]
fn quarter_turn_counts() {
    assert_eq!(1, Direction::Normal.to_quarter_turns());
    assert_eq!(2, Direction::Half.to_quarter_turns());
    assert_eq!(3, Direction::Prime.to_quarter_turns());
    assert_eq!(None, Direction::from_quarter_turns(0));
    assert_eq!(Some(Direction::Normal), Direction::from_quarter_turns(1));
    assert_eq!(Some(Direction::Half), Direction::from_quarter_turns(2));
    assert_eq!(Some(Direction::Prime), Direction::from_quarter_turns(3));
    assert_eq!(None, Direction::from_quarter_turns(4));
    assert_eq!(Some(Direction::Normal), Direction::from_quarter_turns(5));
    assert_eq!(Some(Direction::Half), Direction::from_quarter_turns(6));
}

#[test]
fn face_letters() {
    assert_eq!(Some(Position::Up), Position::from_letter('U'));
    assert_eq!(Some(Position::Down), Position::from_letter('D'));
    assert_eq!(Some(Position::Left), Position::from_letter('L'));
    assert_eq!(Some(Position::Right), Position::from_letter('R'));
    assert_eq!(Some(Position::Front), Position::from_letter('F'));
    assert_eq!(Some(Position::Back), Position::from_letter('B'));
    assert_eq!(None, Position::from_letter('u'));
    assert_eq!(None, Position::from_letter('2'));
}

#[test]
fn error_messages() {
    assert_eq!("Unknown facelet colour", Error::UnknownColour.message());
    assert_eq!(
        "Invalid facelet cube representation",
        Error::InvalidFaceletCube.message()
    );
    assert_eq!("Cube is unsolveable", Error::Unsolvable.message());
}
