use solver::cubie_cube::CubieCube;
use solver::error::Error;
use solver::facelet_cube::{Colour, FaceletCube};
use solver::moves::{Direction, Move, Position};

const SOLVED: &str = "WWWWWWWWWRRRRRRRRRGGGGGGGGGYYYYYYYYYOOOOOOOOOBBBBBBBBB";

fn check_move(face: Position, turn: Direction, expected: &str) {
    assert_eq!(
        expected,
        FaceletCube::default()
            .apply_move(&Move(face, turn))
            .to_string()
    );
}

#[test]
fn facelet_up() {
    check_move(
        Position::Up,
        Direction::Normal,
        "WWWWWWWWWBBBRRRRRRRRRGGGGGGYYYYYYYYYGGGOOOOOOOOOBBBBBB",
    );
}

#[test]
fn facelet_up_prime() {
    check_move(
        Position::Up,
        Direction::Prime,
        "WWWWWWWWWGGGRRRRRROOOGGGGGGYYYYYYYYYBBBOOOOOORRRBBBBBB",
    );
}

#[test]
fn facelet_up_half() {
    check_move(
        Position::Up,
        Direction::Half,
        "WWWWWWWWWOOORRRRRRBBBGGGGGGYYYYYYYYYRRROOOOOOGGGBBBBBB",
    );
}

#[test]
fn facelet_down() {
    check_move(
        Position::Down,
        Direction::Normal,
        "WWWWWWWWWRRRRRRGGGGGGGGGOOOYYYYYYYYYOOOOOOBBBBBBBBBRRR",
    );
}

#[test]
fn facelet_down_prime() {
    check_move(
        Position::Down,
        Direction::Prime,
        "WWWWWWWWWRRRRRRBBBGGGGGGRRRYYYYYYYYYOOOOOOGGGBBBBBBOOO",
    );
}

#[test]
fn facelet_down_half() {
    check_move(
        Position::Down,
        Direction::Half,
        "WWWWWWWWWRRRRRROOOGGGGGGBBBYYYYYYYYYOOOOOORRRBBBBBBGGG",
    );
}

#[test]
fn facelet_left() {
    check_move(
        Position::Left,
        Direction::Normal,
        "BWWBWWBWWRRRRRRRRRWGGWGGWGGGYYGYYGYYOOOOOOOOOBBYBBYBBY",
    );
}

#[test]
fn facelet_left_prime() {
    check_move(
        Position::Left,
        Direction::Prime,
        "GWWGWWGWWRRRRRRRRRYGGYGGYGGBYYBYYBYYOOOOOOOOOBBWBBWBBW",
    );
}

#[test]
fn facelet_left_half() {
    check_move(
        Position::Left,
        Direction::Half,
        "YWWYWWYWWRRRRRRRRRBGGBGGBGGWYYWYYWYYOOOOOOOOOBBGBBGBBG",
    );
}

#[test]
fn facelet_right() {
    check_move(
        Position::Right,
        Direction::Normal,
        "WWGWWGWWGRRRRRRRRRGGYGGYGGYYYBYYBYYBOOOOOOOOOWBBWBBWBB",
    );
}

#[test]
fn facelet_right_prime() {
    check_move(
        Position::Right,
        Direction::Prime,
        "WWBWWBWWBRRRRRRRRRGGWGGWGGWYYGYYGYYGOOOOOOOOOYBBYBBYBB",
    );
}

#[test]
fn facelet_right_half() {
    check_move(
        Position::Right,
        Direction::Half,
        "WWYWWYWWYRRRRRRRRRGGBGGBGGBYYWYYWYYWOOOOOOOOOGBBGBBGBB",
    );
}

#[test]
fn facelet_front() {
    check_move(
        Position::Front,
        Direction::Normal,
        "WWWWWWOOOWRRWRRWRRGGGGGGGGGRRRYYYYYYOOYOOYOOYBBBBBBBBB",
    );
}

#[test]
fn facelet_front_prime() {
    check_move(
        Position::Front,
        Direction::Prime,
        "WWWWWWRRRYRRYRRYRRGGGGGGGGGOOOYYYYYYOOWOOWOOWBBBBBBBBB",
    );
}

#[test]
fn facelet_front_half() {
    check_move(
        Position::Front,
        Direction::Half,
        "WWWWWWYYYORRORRORRGGGGGGGGGWWWYYYYYYOOROOROORBBBBBBBBB",
    );
}

#[test]
fn facelet_back() {
    check_move(
        Position::Back,
        Direction::Normal,
        "RRRWWWWWWRRYRRYRRYGGGGGGGGGYYYYYYOOOWOOWOOWOOBBBBBBBBB",
    );
}

#[test]
fn facelet_back_prime() {
    check_move(
        Position::Back,
        Direction::Prime,
        "OOOWWWWWWRRWRRWRRWGGGGGGGGGYYYYYYRRRYOOYOOYOOBBBBBBBBB",
    );
}

#[test]
fn facelet_back_half() {
    check_move(
        Position::Back,
        Direction::Half,
        "YYYWWWWWWRRORRORROGGGGGGGGGYYYYYYWWWROOROOROOBBBBBBBBB",
    );
}

#[test]
fn facelet_cube_applying_half_move_twice_returns_to_initial_state() {
    assert_eq!(
        FaceletCube::default(),
        FaceletCube::default().apply_moves(&vec![
            Move(Position::Front, Direction::Half),
            Move(Position::Front, Direction::Half)
        ])
    );
}

#[test]
fn facelet_cube_applying_double_quarter_turn_is_the_same_as_single_half_turn() {
    assert_eq!(
        FaceletCube::default().apply_move(&Move(Position::Front, Direction::Half)),
        FaceletCube::default().apply_moves(&vec![
            Move(Position::Front, Direction::Normal),
            Move(Position::Front, Direction::Normal)
        ])
    );

    assert_eq!(
        FaceletCube::default().apply_move(&Move(Position::Front, Direction::Half)),
        FaceletCube::default().apply_moves(&vec![
            Move(Position::Front, Direction::Prime),
            Move(Position::Front, Direction::Prime)
        ])
    );
}

#[test]
fn solved_facelets_are_written_face_by_face() {
    assert_eq!(SOLVED, FaceletCube::default().to_string());
    assert_eq!(SOLVED, FaceletCube::solved().to_string());
}

#[test]
fn facelet_text_round_trips() {
    let scrambled = "OGOYWWWWYRBYRRRORRORBYGGWOBBWYBYYRWWWBBGOOGORGOGBBYGGY";
    let cube = FaceletCube::from_str(scrambled).unwrap();
    assert_eq!(scrambled, cube.to_string());
    assert_eq!(Ok(cube), scrambled.parse::<FaceletCube>());
    assert_eq!(Ok(FaceletCube::default()), FaceletCube::from_str(SOLVED));
    assert_eq!(Colour::L, cube.state[0]);
    assert_eq!(Colour::F, cube.state[1]);
    assert_eq!(Colour::D, cube.state[53]);
}

#[test]
fn unknown_colour_is_refused_wherever_it_stands() {
    assert_eq!(Err(Error::UnknownColour), FaceletCube::from_str("X"));
    assert_eq!(Err(Error::UnknownColour), FaceletCube::from_str("WWw"));
    let mut text = String::from(SOLVED);
    text.replace_range(53..54, "b");
    assert_eq!(Err(Error::UnknownColour), FaceletCube::from_str(&text));
    let mut long = String::from(SOLVED);
    long.push('?');
    assert_eq!(Err(Error::UnknownColour), FaceletCube::from_str(&long));
    assert_eq!(
        Err(Error::UnknownColour),
        FaceletCube::from_str("WWWWWWWW\u{e9}")
    );
}

#[test]
fn wrong_number_of_stickers_is_refused() {
    assert_eq!(Err(Error::InvalidFaceletCube), FaceletCube::from_str(""));
    assert_eq!(
        Err(Error::InvalidFaceletCube),
        FaceletCube::from_str(&SOLVED[..53])
    );
    let mut long = String::from(SOLVED);
    long.push('W');
    assert_eq!(Err(Error::InvalidFaceletCube), FaceletCube::from_str(&long));
}

#[test]
fn colour_letters() {
    let pairs = [
        (Colour::U, "W", 'W'),
        (Colour::R, "R", 'R'),
        (Colour::F, "G", 'G'),
        (Colour::D, "Y", 'Y'),
        (Colour::L, "O", 'O'),
        (Colour::B, "B", 'B'),
    ];
    for (colour, text, letter) in pairs {
        assert_eq!(text, colour.to_str());
        assert_eq!(Ok(colour), Colour::from_str(text));
        assert_eq!(Some(colour), Colour::from_char(letter));
    }
    assert_eq!(Err(Error::UnknownColour), Colour::from_str(""));
    assert_eq!(Err(Error::UnknownColour), Colour::from_str("w"));
    assert_eq!(Err(Error::UnknownColour), Colour::from_str("WW"));
    assert_eq!(Err(Error::UnknownColour), Colour::from_str("U"));
    assert_eq!(None, Colour::from_char('U'));
}

#[test]
fn cubies_painted_and_read_back_are_the_same() {
    let scrambled = CubieCube::solved().apply_moves(&vec![
        Move(Position::Right, Direction::Normal),
        Move(Position::Up, Direction::Prime),
        Move(Position::Front, Direction::Half),
        Move(Position::Left, Direction::Normal),
        Move(Position::Back, Direction::Prime),
        Move(Position::Down, Direction::Normal),
    ]);
    assert_eq!(
        scrambled,
        CubieCube::from(FaceletCube::from(scrambled))
    );
    assert_eq!(
        scrambled,
        CubieCube::from_facelets(FaceletCube::from_cubie(scrambled))
    );
    assert_eq!(FaceletCube::default(), FaceletCube::from(CubieCube::solved()));
    assert_eq!(CubieCube::solved(), CubieCube::from(FaceletCube::default()));
}

#[test]
fn moves_on_stickers_agree_with_moves_on_cubies() {
    let actions = vec![
        Move(Position::Front, Direction::Normal),
        Move(Position::Right, Direction::Prime),
        Move(Position::Up, Direction::Half),
        Move(Position::Back, Direction::Normal),
    ];
    assert_eq!(
        FaceletCube::from(CubieCube::solved().apply_moves(&actions)),
        FaceletCube::default().apply_moves(&actions)
    );
}

#[test]
fn stickers_that_show_no_cubie_leave_the_slot_at_home() {
    // every sticker white: no corner and no edge is recognised
    let white = FaceletCube {
        state: [Colour::U; 54],
    };
    assert_eq!(CubieCube::solved(), CubieCube::from(white));
    // every sticker red: no sticker of any corner faces up or down
    let red = FaceletCube {
        state: [Colour::R; 54],
    };
    assert_eq!(CubieCube::solved(), CubieCube::from(red));
}

#[test]
fn corner_without_up_or_down_sticker_gets_twist_three() {
    // the three stickers of the corner in slot URF read R, R, F: none faces
    // up or down, and the last two are those of the corner URF
    let mut faces = FaceletCube::default();
    faces.state[8] = Colour::R;
    let cube = CubieCube::from(faces);
    assert_eq!(3, cube.co[0]);
    assert_eq!(0, cube.cp[0].index());
    assert!(cube.is_wf());
}

#[test]
fn random_stickers_are_those_of_a_scrambled_cube() {
    assert_eq!(FaceletCube::default(), FaceletCube::random(0));
    for _ in 0..10 {
        let faces = FaceletCube::random(25);
        for colour in [
            Colour::U,
            Colour::R,
            Colour::F,
            Colour::D,
            Colour::L,
            Colour::B,
        ] {
            assert_eq!(9, faces.state.iter().filter(|&&c| c == colour).count());
        }
        assert_eq!(faces, FaceletCube::from(CubieCube::from(faces)));
    }
}
