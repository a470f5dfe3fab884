use solver::cubie_cube::CubieCube;
use solver::facelet_cube::FaceletCube;
use solver::key::to_phase_key;
use solver::moves::{Direction, Move, Position};
use solver::phase::{
    get_permitted_moves, to_phase_id, to_pochmann_corner, to_pochmann_cube, to_pochmann_edge,
    Phase,
};
use solver::pochmann_solver::solve;
use solver::search::{bidirection_bfs, build_move_seq, History, QueueDirection};
use solver::simplify::simplify_multi_face_moves;
use solver::cubie_cube::{Corner, Edge};

fn assert_no_multi_face_turns(solution: &Vec<Move>) {
    let has_multi_face_turn = solution
        .iter()
        .zip(solution.iter().skip(1))
        .any(|(a, b)| a.0 == b.0);

    assert!(!has_multi_face_turn);
}

#[test]
fn pochmann_solver_solve_random_cube() {
    let cube = CubieCube::random(100);
    let solution = solve(&cube);
    assert_eq!(CubieCube::default(), cube.apply_moves(&solution.unwrap()));
}

#[test]
fn solve_solve_random_cube() {
    let cube = CubieCube::random(15);
    let solution = solve(&cube);
    assert_eq!(CubieCube::solved(), cube.apply_moves(&solution.unwrap()));
}

#[test]
fn solutions_do_not_have_multi_face_turns() {
    let cube = "OGOYWWWWYRBYRRRORRORBYGGWOBBWYBYYRWWWBBGOOGORGOGBBYGGY"
        .parse::<FaceletCube>()
        .unwrap();
    let solution = solve(&CubieCube::from(cube)).unwrap();

    assert_no_multi_face_turns(&solution);
    assert_eq!(FaceletCube::default(), cube.apply_moves(&solution));

    let cube = "BGYRWOYGOWYOWRRYYBOWGBGRBORYWGGYBRBWWYGBORWYRBOOGBORWG"
        .parse::<FaceletCube>()
        .unwrap();
    let solution = solve(&CubieCube::from(cube)).unwrap();

    assert_no_multi_face_turns(&solution);
    assert_eq!(FaceletCube::default(), cube.apply_moves(&solution));

    let cube = "BRGOWGWWBOOYRRBOGROOYOGYGRGYWWBYYRBBYBBGOYWWORGRYBWWRG"
        .parse::<FaceletCube>()
        .unwrap();
    let solution = solve(&CubieCube::from(cube)).unwrap();

    assert_no_multi_face_turns(&solution);
    assert_eq!(FaceletCube::default(), cube.apply_moves(&solution));
}

#[test]
fn scrambled_scenario_is_solved_on_the_cubie_level() {
    let faces = "OGOYWWWWYRBYRRRORRORBYGGWOBBWYBYYRWWWBBGOOGORGOGBBYGGY"
        .parse::<FaceletCube>()
        .unwrap();
    let cube = CubieCube::from(faces);
    let solution = solve(&cube).unwrap();
    assert!(!solution.is_empty());
    assert_no_multi_face_turns(&solution);
    let end = cube.apply_moves(&solution);
    let cp: Vec<usize> = end.cp.iter().map(|c| c.index()).collect();
    let ep: Vec<usize> = end.ep.iter().map(|e| e.index()).collect();
    assert_eq!(vec![0, 1, 2, 3, 4, 5, 6, 7], cp);
    assert_eq!([0; 8], end.co);
    assert_eq!(vec![0, 1, 2, 3, 4, 5, 6, 7, 8, 9, 10, 11], ep);
    assert_eq!([0; 12], end.eo);
}

#[test]
fn solved_cube_needs_no_moves() {
    assert_eq!(Some(vec![]), solve(&CubieCube::solved()));
}

#[test]
fn one_move_scrambles_are_solved() {
    for action in Move::available() {
        let cube = CubieCube::solved().apply_move(&action);
        let solution = solve(&cube).unwrap();
        assert_no_multi_face_turns(&solution);
        assert_eq!(CubieCube::solved(), cube.apply_moves(&solution));
    }
}

#[test]
fn random_scrambles_are_solved_without_neighbouring_turns_of_one_face() {
    for _ in 0..3 {
        let cube = CubieCube::random(40);
        let solution = solve(&cube).unwrap();
        assert_no_multi_face_turns(&solution);
        assert_eq!(CubieCube::solved(), cube.apply_moves(&solution));
    }
}

#[test]
fn cube_with_one_flipped_edge_has_no_solution() {
    let mut cube = CubieCube::solved();
    cube.eo[0] = 1;
    assert_eq!(None, solve(&cube));
}

#[test]
fn permitted_moves_shrink_from_phase_to_phase() {
    let all: Vec<Move> = Move::available().to_vec();
    assert_eq!(all, get_permitted_moves(Phase::One));

    let two = get_permitted_moves(Phase::Two);
    assert_eq!(14, two.len());
    assert_eq!(all[..12].to_vec(), two[..12].to_vec());
    assert_eq!(Move(Position::Front, Direction::Half), two[12]);
    assert_eq!(Move(Position::Back, Direction::Half), two[13]);

    let three = get_permitted_moves(Phase::Three);
    assert_eq!(
        vec![
            Move(Position::Up, Direction::Normal),
            Move(Position::Up, Direction::Prime),
            Move(Position::Up, Direction::Half),
            Move(Position::Down, Direction::Normal),
            Move(Position::Down, Direction::Prime),
            Move(Position::Down, Direction::Half),
            Move(Position::Left, Direction::Half),
            Move(Position::Right, Direction::Half),
            Move(Position::Front, Direction::Half),
            Move(Position::Back, Direction::Half),
        ],
        three
    );

    assert_eq!(
        vec![
            Move(Position::Up, Direction::Half),
            Move(Position::Down, Direction::Half),
            Move(Position::Left, Direction::Half),
            Move(Position::Right, Direction::Half),
            Move(Position::Front, Direction::Half),
            Move(Position::Back, Direction::Half),
        ],
        get_permitted_moves(Phase::Four)
    );
}

#[test]
fn phases_run_in_order() {
    assert_eq!(
        [Phase::One, Phase::Two, Phase::Three, Phase::Four],
        Phase::iterator()
    );
}

#[test]
fn pochmann_numbers_of_edges_and_corners() {
    assert_eq!(0, to_pochmann_edge(Edge::UF));
    assert_eq!(1, to_pochmann_edge(Edge::UR));
    assert_eq!(2, to_pochmann_edge(Edge::UB));
    assert_eq!(3, to_pochmann_edge(Edge::UL));
    assert_eq!(4, to_pochmann_edge(Edge::DF));
    assert_eq!(5, to_pochmann_edge(Edge::DR));
    assert_eq!(6, to_pochmann_edge(Edge::DB));
    assert_eq!(7, to_pochmann_edge(Edge::DL));
    assert_eq!(8, to_pochmann_edge(Edge::FR));
    assert_eq!(9, to_pochmann_edge(Edge::FL));
    assert_eq!(10, to_pochmann_edge(Edge::BR));
    assert_eq!(11, to_pochmann_edge(Edge::BL));
    assert_eq!(12, to_pochmann_corner(Corner::URF));
    assert_eq!(13, to_pochmann_corner(Corner::UBR));
    assert_eq!(14, to_pochmann_corner(Corner::ULB));
    assert_eq!(15, to_pochmann_corner(Corner::UFL));
    assert_eq!(16, to_pochmann_corner(Corner::DFR));
    assert_eq!(17, to_pochmann_corner(Corner::DLF));
    assert_eq!(18, to_pochmann_corner(Corner::DBL));
    assert_eq!(19, to_pochmann_corner(Corner::DRB));
}

#[test]
fn pochmann_cube_of_the_solved_cube_counts_up() {
    let pc = to_pochmann_cube(CubieCube::solved());
    for i in 0..20 {
        assert_eq!(i as u32, pc[i]);
    }
    for i in 20..40 {
        assert_eq!(0, pc[i]);
    }
}

#[test]
fn pochmann_cube_after_a_front_turn() {
    let cube = CubieCube::solved().apply_move(&Move(Position::Front, Direction::Normal));
    let pc = to_pochmann_cube(cube);
    let expected: [u32; 40] = [
        9, 1, 2, 3, 8, 5, 6, 7, 0, 4, 10, 11, // edges
        15, 13, 14, 17, 12, 16, 18, 19, // corners
        1, 0, 0, 0, 1, 0, 0, 0, 1, 1, 0, 0, // flips
        1, 0, 0, 2, 2, 1, 0, 0, // twists
    ];
    assert_eq!(expected, pc);
}

#[test]
fn phase_ids_of_the_solved_cube() {
    let solved = CubieCube::solved();
    assert_eq!([0u32; 40], to_phase_id(Phase::One, solved));

    let mut two = [0u32; 40];
    two[0] = 0b1111_0000_0000;
    assert_eq!(two, to_phase_id(Phase::Two, solved));

    let mut three = [0u32; 40];
    three[0] = 0b10_10_10_10_01_00_01_00_01_00_01_00;
    three[1] = 0b101_100_101_100_001_000_001_000;
    three[2] = 0;
    assert_eq!(three, to_phase_id(Phase::Three, solved));

    assert_eq!(to_pochmann_cube(solved), to_phase_id(Phase::Four, solved));
}

#[test]
fn phase_ids_after_a_front_turn() {
    let cube = CubieCube::solved().apply_move(&Move(Position::Front, Direction::Normal));

    let mut one = [0u32; 40];
    one[0] = 1;
    one[4] = 1;
    one[8] = 1;
    one[9] = 1;
    assert_eq!(one, to_phase_id(Phase::One, cube));

    // twists 1 0 0 2 2 1 0 0; slots UF and DF hold the edges FL and FR
    let mut two = [0u32; 40];
    two[0] = 1 | 0b1100_0001_0001;
    two[3] = 2;
    two[4] = 2;
    two[5] = 1;
    assert_eq!(two, to_phase_id(Phase::Two, cube));

    // a quarter turn is an odd permutation of the corners
    assert_eq!(1, to_phase_id(Phase::Three, cube)[2]);
    assert_eq!(to_pochmann_cube(cube), to_phase_id(Phase::Four, cube));
}

#[test]
fn phase_one_id_forgets_everything_but_the_flips() {
    let a = CubieCube::solved().apply_move(&Move(Position::Up, Direction::Normal));
    let b = CubieCube::solved().apply_move(&Move(Position::Right, Direction::Half));
    assert_eq!(to_phase_id(Phase::One, a), to_phase_id(Phase::One, b));
    assert_ne!(to_phase_id(Phase::Four, a), to_phase_id(Phase::Four, b));
}

#[test]
fn phase_keys_tell_ids_apart() {
    let solved = CubieCube::solved();
    let mut seen: Vec<u128> = vec![];
    for phase in Phase::iterator() {
        assert_eq!(
            to_phase_key(phase, &to_phase_id(phase, solved)),
            to_phase_key(phase, &to_phase_id(phase, solved))
        );
    }
    seen.push(to_phase_key(Phase::Four, &to_phase_id(Phase::Four, solved)));
    for action in Move::available() {
        let cube = solved.apply_move(&action);
        let key = to_phase_key(Phase::Four, &to_phase_id(Phase::Four, cube));
        assert!(!seen.contains(&key));
        seen.push(key);
    }
}

#[test]
fn phase_key_is_the_numeral_of_the_id() {
    // phase one: twelve binary digits, first entry most significant
    let mut id = [0u32; 40];
    id[11] = 1;
    assert_eq!(1, to_phase_key(Phase::One, &id));
    id[0] = 1;
    assert_eq!(0b1000_0000_0001, to_phase_key(Phase::One, &id));
    // phase two: one word, then seven digits of three bits
    let mut id = [0u32; 40];
    id[0] = 5;
    id[7] = 2;
    assert_eq!((5u128 << 21) + 2, to_phase_key(Phase::Two, &id));
    // phase three: three words
    let mut id = [0u32; 40];
    id[0] = 1;
    id[1] = 2;
    id[2] = 1;
    assert_eq!((1u128 << 64) + (2u128 << 32) + 1, to_phase_key(Phase::Three, &id));
    // phase four: the last entry is the least significant digit
    let mut id = [0u32; 40];
    id[39] = 5;
    id[38] = 1;
    assert_eq!(8 + 5, to_phase_key(Phase::Four, &id));
}

#[test]
fn search_of_a_cube_that_has_the_goal_id_is_empty() {
    let flips_kept = CubieCube::solved().apply_move(&Move(Position::Up, Direction::Normal));
    assert_eq!(Some(vec![]), bidirection_bfs(Phase::One, flips_kept));
    for phase in Phase::iterator() {
        assert_eq!(Some(vec![]), bidirection_bfs(phase, CubieCube::solved()));
    }
}

#[test]
fn search_of_phase_one_restores_the_flips() {
    let cube = CubieCube::solved().apply_moves(&vec![
        Move(Position::Front, Direction::Normal),
        Move(Position::Up, Direction::Normal),
        Move(Position::Back, Direction::Prime),
    ]);
    let path = bidirection_bfs(Phase::One, cube).unwrap();
    assert!(!path.is_empty());
    assert_eq!([0; 12], cube.apply_moves(&path).eo);
}

#[test]
fn search_of_phase_four_solves_a_half_turn_scramble() {
    let cube = CubieCube::solved().apply_moves(&vec![
        Move(Position::Front, Direction::Half),
        Move(Position::Up, Direction::Half),
        Move(Position::Left, Direction::Half),
    ]);
    let path = bidirection_bfs(Phase::Four, cube).unwrap();
    assert!(path.iter().all(|action| action.1 == Direction::Half));
    assert_eq!(CubieCube::solved(), cube.apply_moves(&path));
}

#[test]
fn search_of_phase_four_fails_on_a_quarter_turn() {
    let cube = CubieCube::solved().apply_move(&Move(Position::Up, Direction::Normal));
    assert_eq!(None, bidirection_bfs(Phase::Four, cube));
}

#[test]
fn queue_direction_has_an_opposite() {
    assert_eq!(QueueDirection::Backward, QueueDirection::Forward.opposite());
    assert_eq!(QueueDirection::Forward, QueueDirection::Backward.opposite());
}

#[test]
fn history_keeps_one_path_per_id_and_side() {
    let mut history = History::new();
    assert!(!history.contains_key(7, QueueDirection::Forward));
    assert_eq!(None, history.get(7, QueueDirection::Forward));
    let forward = vec![Move(Position::Up, Direction::Normal)];
    history.insert(7, QueueDirection::Forward, forward.clone());
    assert!(history.contains_key(7, QueueDirection::Forward));
    assert!(!history.contains_key(7, QueueDirection::Backward));
    assert!(!history.contains_key(8, QueueDirection::Forward));
    assert_eq!(Some(&forward), history.get(7, QueueDirection::Forward));
}

#[test]
fn move_sequence_is_forward_path_then_inverted_backward_path() {
    let mut history = History::new();
    history.insert(
        3,
        QueueDirection::Forward,
        vec![
            Move(Position::Up, Direction::Normal),
            Move(Position::Right, Direction::Half),
        ],
    );
    history.insert(
        3,
        QueueDirection::Backward,
        vec![
            Move(Position::Front, Direction::Normal),
            Move(Position::Left, Direction::Prime),
            Move(Position::Down, Direction::Half),
        ],
    );
    assert_eq!(
        vec![
            Move(Position::Up, Direction::Normal),
            Move(Position::Right, Direction::Half),
            Move(Position::Down, Direction::Half),
            Move(Position::Left, Direction::Normal),
            Move(Position::Front, Direction::Prime),
        ],
        build_move_seq(&history, 3)
    );
}

#[test]
fn simplify_merges_neighbouring_turns_of_one_face() {
    let up = |d| Move(Position::Up, d);
    let right = |d| Move(Position::Right, d);
    assert_eq!(Vec::<Move>::new(), simplify_multi_face_moves(&vec![]));
    assert_eq!(
        vec![up(Direction::Half)],
        simplify_multi_face_moves(&vec![up(Direction::Normal), up(Direction::Normal)])
    );
    assert_eq!(
        vec![up(Direction::Prime)],
        simplify_multi_face_moves(&vec![up(Direction::Normal), up(Direction::Half)])
    );
    assert_eq!(
        vec![up(Direction::Normal)],
        simplify_multi_face_moves(&vec![up(Direction::Prime), up(Direction::Half)])
    );
    assert_eq!(
        vec![up(Direction::Half)],
        simplify_multi_face_moves(&vec![up(Direction::Prime), up(Direction::Prime)])
    );
    assert_eq!(
        Vec::<Move>::new(),
        simplify_multi_face_moves(&vec![up(Direction::Normal), up(Direction::Prime)])
    );
    assert_eq!(
        Vec::<Move>::new(),
        simplify_multi_face_moves(&vec![up(Direction::Half), up(Direction::Half)])
    );
    assert_eq!(
        vec![up(Direction::Normal), right(Direction::Normal)],
        simplify_multi_face_moves(&vec![up(Direction::Normal), right(Direction::Normal)])
    );
}

#[test]
fn simplify_merges_across_a_cancelled_pair() {
    let up = |d| Move(Position::Up, d);
    let right = |d| Move(Position::Right, d);
    // R cancels R', then the two U turns meet
    assert_eq!(
        vec![up(Direction::Half)],
        simplify_multi_face_moves(&vec![
            up(Direction::Normal),
            right(Direction::Normal),
            right(Direction::Prime),
            up(Direction::Normal),
        ])
    );
    // three turns of one face in a row
    assert_eq!(
        vec![right(Direction::Normal), up(Direction::Prime)],
        simplify_multi_face_moves(&vec![
            right(Direction::Normal),
            up(Direction::Normal),
            up(Direction::Normal),
            up(Direction::Normal),
        ])
    );
}

#[test]
fn simplify_keeps_what_the_sequence_does() {
    let raw = vec![
        Move(Position::Front, Direction::Normal),
        Move(Position::Front, Direction::Half),
        Move(Position::Up, Direction::Prime),
        Move(Position::Up, Direction::Prime),
        Move(Position::Left, Direction::Half),
        Move(Position::Left, Direction::Half),
        Move(Position::Up, Direction::Normal),
        Move(Position::Back, Direction::Normal),
    ];
    let tidy = simplify_multi_face_moves(&raw);
    assert_no_multi_face_turns(&tidy);
    assert!(tidy.len() <= raw.len());
    let cube = CubieCube::solved().apply_move(&Move(Position::Right, Direction::Normal));
    assert_eq!(cube.apply_moves(&raw), cube.apply_moves(&tidy));
}

#[test]
fn solving_twice_gives_the_same_solution() {
    let cube = CubieCube::random(60);
    assert_eq!(solve(&cube), solve(&cube));
    assert_eq!(
        bidirection_bfs(Phase::One, cube),
        bidirection_bfs(Phase::One, cube)
    );
}

#[test]
fn search_tries_the_moves_in_order() {
    let up = Move(Position::Up, Direction::Half);
    let down = Move(Position::Down, Direction::Half);
    // one half turn away: the first move that the forward side tries meets
    // the backward side at the solved cube
    let cube = CubieCube::solved().apply_move(&up);
    assert_eq!(Some(vec![up]), bidirection_bfs(Phase::Four, cube));
    // two half turns away, which can be undone in either order: the forward
    // side reaches both cubes in between, the backward side meets it at the
    // first that it tries, which the forward side reached by the other turn
    let cube = CubieCube::solved().apply_moves(&vec![up, down]);
    assert_eq!(Some(vec![down, up]), bidirection_bfs(Phase::Four, cube));
}

#[test]
fn search_answers_are_short() {
    // three half turns of different faces cannot be undone by fewer moves
    let cube = CubieCube::solved().apply_moves(&vec![
        Move(Position::Front, Direction::Half),
        Move(Position::Up, Direction::Half),
        Move(Position::Left, Direction::Half),
    ]);
    let path = bidirection_bfs(Phase::Four, cube).unwrap();
    assert!(path.len() <= 4);
    assert_eq!(3, path.len());
    // one quarter turn of the front face flips four edges; one move
    // restores the flips
    let cube = CubieCube::solved().apply_move(&Move(Position::Front, Direction::Normal));
    let path = bidirection_bfs(Phase::One, cube).unwrap();
    assert_eq!(1, path.len());
}

#[test]
fn history_insert_replaces_the_path_of_a_key() {
    let mut history = History::new();
    history.insert(5, QueueDirection::Backward, vec![]);
    history.insert(
        5,
        QueueDirection::Backward,
        vec![Move(Position::Down, Direction::Prime)],
    );
    assert_eq!(
        Some(&vec![Move(Position::Down, Direction::Prime)]),
        history.get(5, QueueDirection::Backward)
    );
    assert_eq!(None, history.get(5, QueueDirection::Forward));
}

#[test]
fn different_cubes_have_different_phase_four_keys() {
    let mut cubes: Vec<CubieCube> = vec![];
    let mut keys: Vec<u128> = vec![];
    for _ in 0..200 {
        let cube = CubieCube::random(12);
        let key = to_phase_key(Phase::Four, &to_phase_id(Phase::Four, cube));
        for (other, other_key) in cubes.iter().zip(keys.iter()) {
            assert_eq!(*other == cube, *other_key == key);
        }
        cubes.push(cube);
        keys.push(key);
    }
}

#[test]
fn each_phase_reaches_the_id_of_the_solved_cube() {
    let solved = CubieCube::solved();
    let mut cube = CubieCube::random(50);
    for phase in Phase::iterator() {
        let path = bidirection_bfs(phase, cube).unwrap();
        for action in path.iter() {
            assert!(get_permitted_moves(phase).contains(action));
        }
        cube = cube.apply_moves(&path);
        assert_eq!(to_phase_id(phase, solved), to_phase_id(phase, cube));
    }
    assert_eq!(solved, cube);
}
