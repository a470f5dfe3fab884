use solver::cubie_cube::{Corner, CubieCube, Edge};
use solver::moves::{Direction, Move, Position};

fn corners(cube: &CubieCube) -> Vec<usize> {
    cube.cp.iter().map(|c| c.index()).collect()
}

fn edges(cube: &CubieCube) -> Vec<usize> {
    cube.ep.iter().map(|e| e.index()).collect()
}

fn check_move(
    face: Position,
    turn: Direction,
    cp: [usize; 8],
    co: [u8; 8],
    ep: [usize; 12],
    eo: [u8; 12],
) {
    let cube = CubieCube::default().apply_move(&Move(face, turn));
    assert_eq!(cp.to_vec(), corners(&cube));
    assert_eq!(co, cube.co);
    assert_eq!(ep.to_vec(), edges(&cube));
    assert_eq!(eo, cube.eo);
}

#[test]
fn cubie_up() {
    check_move(
        Position::Up,
        Direction::Normal,
        [3, 0, 1, 2, 4, 5, 6, 7],
        [0, 0, 0, 0, 0, 0, 0, 0],
        [3, 0, 1, 2, 4, 5, 6, 7, 8, 9, 10, 11],
        [0, 0, 0, 0, 0, 0, 0, 0, 0, 0, 0, 0],
    );
}

#[test]
fn cubie_up_prime() {
    check_move(
        Position::Up,
        Direction::Prime,
        [1, 2, 3, 0, 4, 5, 6, 7],
        [0, 0, 0, 0, 0, 0, 0, 0],
        [1, 2, 3, 0, 4, 5, 6, 7, 8, 9, 10, 11],
        [0, 0, 0, 0, 0, 0, 0, 0, 0, 0, 0, 0],
    );
}

#[test]
fn cubie_up_half() {
    check_move(
        Position::Up,
        Direction::Half,
        [2, 3, 0, 1, 4, 5, 6, 7],
        [0, 0, 0, 0, 0, 0, 0, 0],
        [2, 3, 0, 1, 4, 5, 6, 7, 8, 9, 10, 11],
        [0, 0, 0, 0, 0, 0, 0, 0, 0, 0, 0, 0],
    );
}

#[test]
fn cubie_down() {
    check_move(
        Position::Down,
        Direction::Normal,
        [0, 1, 2, 3, 5, 6, 7, 4],
        [0, 0, 0, 0, 0, 0, 0, 0],
        [0, 1, 2, 3, 5, 6, 7, 4, 8, 9, 10, 11],
        [0, 0, 0, 0, 0, 0, 0, 0, 0, 0, 0, 0],
    );
}

#[test]
fn cubie_down_prime() {
    check_move(
        Position::Down,
        Direction::Prime,
        [0, 1, 2, 3, 7, 4, 5, 6],
        [0, 0, 0, 0, 0, 0, 0, 0],
        [0, 1, 2, 3, 7, 4, 5, 6, 8, 9, 10, 11],
        [0, 0, 0, 0, 0, 0, 0, 0, 0, 0, 0, 0],
    );
}

#[test]
fn cubie_down_half() {
    check_move(
        Position::Down,
        Direction::Half,
        [0, 1, 2, 3, 6, 7, 4, 5],
        [0, 0, 0, 0, 0, 0, 0, 0],
        [0, 1, 2, 3, 6, 7, 4, 5, 8, 9, 10, 11],
        [0, 0, 0, 0, 0, 0, 0, 0, 0, 0, 0, 0],
    );
}

#[test]
fn cubie_left() {
    check_move(
        Position::Left,
        Direction::Normal,
        [0, 2, 6, 3, 4, 1, 5, 7],
        [0, 1, 2, 0, 0, 2, 1, 0],
        [0, 1, 10, 3, 4, 5, 9, 7, 8, 2, 6, 11],
        [0, 0, 0, 0, 0, 0, 0, 0, 0, 0, 0, 0],
    );
}

#[test]
fn cubie_left_prime() {
    check_move(
        Position::Left,
        Direction::Prime,
        [0, 5, 1, 3, 4, 6, 2, 7],
        [0, 1, 2, 0, 0, 2, 1, 0],
        [0, 1, 9, 3, 4, 5, 10, 7, 8, 6, 2, 11],
        [0, 0, 0, 0, 0, 0, 0, 0, 0, 0, 0, 0],
    );
}

#[test]
fn cubie_left_half() {
    check_move(
        Position::Left,
        Direction::Half,
        [0, 6, 5, 3, 4, 2, 1, 7],
        [0, 0, 0, 0, 0, 0, 0, 0],
        [0, 1, 6, 3, 4, 5, 2, 7, 8, 10, 9, 11],
        [0, 0, 0, 0, 0, 0, 0, 0, 0, 0, 0, 0],
    );
}

#[test]
fn cubie_right() {
    check_move(
        Position::Right,
        Direction::Normal,
        [4, 1, 2, 0, 7, 5, 6, 3],
        [2, 0, 0, 1, 1, 0, 0, 2],
        [8, 1, 2, 3, 11, 5, 6, 7, 4, 9, 10, 0],
        [0, 0, 0, 0, 0, 0, 0, 0, 0, 0, 0, 0],
    );
}

#[test]
fn cubie_right_prime() {
    check_move(
        Position::Right,
        Direction::Prime,
        [3, 1, 2, 7, 0, 5, 6, 4],
        [2, 0, 0, 1, 1, 0, 0, 2],
        [11, 1, 2, 3, 8, 5, 6, 7, 0, 9, 10, 4],
        [0, 0, 0, 0, 0, 0, 0, 0, 0, 0, 0, 0],
    );
}

#[test]
fn cubie_right_half() {
    check_move(
        Position::Right,
        Direction::Half,
        [7, 1, 2, 4, 3, 5, 6, 0],
        [0, 0, 0, 0, 0, 0, 0, 0],
        [4, 1, 2, 3, 0, 5, 6, 7, 11, 9, 10, 8],
        [0, 0, 0, 0, 0, 0, 0, 0, 0, 0, 0, 0],
    );
}

#[test]
fn cubie_front() {
    check_move(
        Position::Front,
        Direction::Normal,
        [1, 5, 2, 3, 0, 4, 6, 7],
        [1, 2, 0, 0, 2, 1, 0, 0],
        [0, 9, 2, 3, 4, 8, 6, 7, 1, 5, 10, 11],
        [0, 1, 0, 0, 0, 1, 0, 0, 1, 1, 0, 0],
    );
}

#[test]
fn cubie_front_prime() {
    check_move(
        Position::Front,
        Direction::Prime,
        [4, 0, 2, 3, 5, 1, 6, 7],
        [1, 2, 0, 0, 2, 1, 0, 0],
        [0, 8, 2, 3, 4, 9, 6, 7, 5, 1, 10, 11],
        [0, 1, 0, 0, 0, 1, 0, 0, 1, 1, 0, 0],
    );
}

#[test]
fn cubie_front_half() {
    check_move(
        Position::Front,
        Direction::Half,
        [5, 4, 2, 3, 1, 0, 6, 7],
        [0, 0, 0, 0, 0, 0, 0, 0],
        [0, 5, 2, 3, 4, 1, 6, 7, 9, 8, 10, 11],
        [0, 0, 0, 0, 0, 0, 0, 0, 0, 0, 0, 0],
    );
}

#[test]
fn cubie_back() {
    check_move(
        Position::Back,
        Direction::Normal,
        [0, 1, 3, 7, 4, 5, 2, 6],
        [0, 0, 1, 2, 0, 0, 2, 1],
        [0, 1, 2, 11, 4, 5, 6, 10, 8, 9, 3, 7],
        [0, 0, 0, 1, 0, 0, 0, 1, 0, 0, 1, 1],
    );
}

#[test]
fn cubie_back_prime() {
    check_move(
        Position::Back,
        Direction::Prime,
        [0, 1, 6, 2, 4, 5, 7, 3],
        [0, 0, 1, 2, 0, 0, 2, 1],
        [0, 1, 2, 10, 4, 5, 6, 11, 8, 9, 7, 3],
        [0, 0, 0, 1, 0, 0, 0, 1, 0, 0, 1, 1],
    );
}

#[test]
fn cubie_back_half() {
    check_move(
        Position::Back,
        Direction::Half,
        [0, 1, 7, 6, 4, 5, 3, 2],
        [0, 0, 0, 0, 0, 0, 0, 0],
        [0, 1, 2, 7, 4, 5, 6, 3, 8, 9, 11, 10],
        [0, 0, 0, 0, 0, 0, 0, 0, 0, 0, 0, 0],
    );
}

#[test]
fn cubie_cube_applying_half_move_twice_returns_to_initial_state() {
    assert_eq!(
        CubieCube::default(),
        CubieCube::default().apply_moves(&vec![
            Move(Position::Front, Direction::Half),
            Move(Position::Front, Direction::Half)
        ])
    );
}

#[test]
fn cubie_cube_applying_double_quarter_turn_is_the_same_as_single_half_turn() {
    assert_eq!(
        CubieCube::default().apply_move(&Move(Position::Front, Direction::Half)),
        CubieCube::default().apply_moves(&vec![
            Move(Position::Front, Direction::Normal),
            Move(Position::Front, Direction::Normal)
        ])
    );

    assert_eq!(
        CubieCube::default().apply_move(&Move(Position::Front, Direction::Half)),
        CubieCube::default().apply_moves(&vec![
            Move(Position::Front, Direction::Prime),
            Move(Position::Front, Direction::Prime)
        ])
    );
}

#[test]
fn solved_cube_has_every_cubie_at_home() {
    let cube = CubieCube::solved();
    assert_eq!(vec![0, 1, 2, 3, 4, 5, 6, 7], corners(&cube));
    assert_eq!([0; 8], cube.co);
    assert_eq!(vec![0, 1, 2, 3, 4, 5, 6, 7, 8, 9, 10, 11], edges(&cube));
    assert_eq!([0; 12], cube.eo);
    assert_eq!(cube, CubieCube::default());
    assert!(cube.is_wf());
}

#[test]
fn solved_times_solved_is_solved() {
    let solved = CubieCube::solved();
    assert_eq!(solved, solved.multiply(solved));
}

#[test]
fn solved_is_the_identity_of_multiply() {
    for face in [
        Position::Up,
        Position::Down,
        Position::Left,
        Position::Right,
        Position::Front,
        Position::Back,
    ] {
        let base = CubieCube::base_move(face);
        assert_eq!(base, base.multiply(CubieCube::solved()));
        assert_eq!(base, CubieCube::solved().multiply(base));
    }
}

#[test]
fn multiply_is_not_commutative() {
    let up = CubieCube::base_move(Position::Up);
    let right = CubieCube::base_move(Position::Right);
    assert_ne!(up.multiply(right), right.multiply(up));
}

#[test]
fn multiply_is_associative_on_base_moves() {
    let f = CubieCube::base_move(Position::Front);
    let r = CubieCube::base_move(Position::Right);
    let b = CubieCube::base_move(Position::Back);
    assert_eq!(f.multiply(r).multiply(b), f.multiply(r.multiply(b)));
}

#[test]
fn move_then_inverse_returns_the_cube() {
    let scrambled = CubieCube::solved().apply_moves(&vec![
        Move(Position::Right, Direction::Normal),
        Move(Position::Up, Direction::Prime),
        Move(Position::Front, Direction::Half),
        Move(Position::Left, Direction::Normal),
        Move(Position::Back, Direction::Prime),
    ]);
    for action in Move::available() {
        assert_eq!(
            scrambled,
            scrambled.apply_move(&action).apply_move(&action.inverse())
        );
        assert_eq!(
            CubieCube::solved(),
            CubieCube::solved()
                .apply_move(&action)
                .apply_move(&action.inverse())
        );
    }
}

#[test]
fn up_then_its_inverse_returns_to_solved() {
    let up = Move(Position::Up, Direction::Normal);
    assert_eq!(Move(Position::Up, Direction::Prime), up.inverse());
    let turned = CubieCube::solved().apply_move(&up);
    assert_ne!(CubieCube::solved(), turned);
    assert_eq!(CubieCube::solved(), turned.apply_move(&up.inverse()));
}

#[test]
fn half_turn_is_two_quarter_turns() {
    let scrambled = CubieCube::solved().apply_moves(&vec![
        Move(Position::Down, Direction::Normal),
        Move(Position::Front, Direction::Prime),
        Move(Position::Right, Direction::Normal),
    ]);
    for face in [
        Position::Up,
        Position::Down,
        Position::Left,
        Position::Right,
        Position::Front,
        Position::Back,
    ] {
        let quarter = Move(face, Direction::Normal);
        assert_eq!(
            scrambled.apply_move(&Move(face, Direction::Half)),
            scrambled.apply_move(&quarter).apply_move(&quarter)
        );
    }
}

#[test]
fn prime_turn_is_three_quarter_turns() {
    for face in [
        Position::Up,
        Position::Down,
        Position::Left,
        Position::Right,
        Position::Front,
        Position::Back,
    ] {
        let base = CubieCube::base_move(face);
        let thrice = base.multiply(base).multiply(base);
        assert_eq!(
            CubieCube::solved().apply_move(&Move(face, Direction::Prime)),
            thrice
        );
        assert_eq!(CubieCube::solved(), base.multiply(thrice));
        assert_eq!(CubieCube::solved(), thrice.multiply(base));
    }
}

#[test]
fn four_quarter_turns_return_the_cube() {
    for face in [
        Position::Up,
        Position::Down,
        Position::Left,
        Position::Right,
        Position::Front,
        Position::Back,
    ] {
        let quarter = Move(face, Direction::Normal);
        assert_eq!(
            CubieCube::solved(),
            CubieCube::solved().apply_moves(&vec![quarter, quarter, quarter, quarter])
        );
    }
}

#[test]
fn apply_moves_of_nothing_changes_nothing() {
    let cube = CubieCube::solved().apply_move(&Move(Position::Left, Direction::Normal));
    assert_eq!(cube, cube.apply_moves(&vec![]));
}

fn twisted(first: u8) -> CubieCube {
    let mut cube = CubieCube::solved();
    cube.co[0] = first;
    cube
}

#[test]
fn two_ordinary_twists_add_modulo_three() {
    assert_eq!(0, twisted(0).multiply(twisted(0)).co[0]);
    assert_eq!(2, twisted(1).multiply(twisted(1)).co[0]);
    assert_eq!(0, twisted(1).multiply(twisted(2)).co[0]);
    assert_eq!(1, twisted(2).multiply(twisted(2)).co[0]);
}

#[test]
fn ordinary_twist_then_mirrored_twist_stays_mirrored() {
    assert_eq!(3, twisted(0).multiply(twisted(3)).co[0]);
    assert_eq!(5, twisted(1).multiply(twisted(4)).co[0]);
    assert_eq!(3, twisted(1).multiply(twisted(5)).co[0]);
    assert_eq!(4, twisted(2).multiply(twisted(5)).co[0]);
}

#[test]
fn mirrored_twist_then_ordinary_twist_stays_mirrored() {
    assert_eq!(3, twisted(3).multiply(twisted(0)).co[0]);
    assert_eq!(5, twisted(3).multiply(twisted(1)).co[0]);
    assert_eq!(4, twisted(3).multiply(twisted(2)).co[0]);
    assert_eq!(3, twisted(5).multiply(twisted(2)).co[0]);
    assert_eq!(4, twisted(5).multiply(twisted(1)).co[0]);
}

#[test]
fn two_mirrored_twists_give_an_ordinary_one() {
    assert_eq!(0, twisted(3).multiply(twisted(3)).co[0]);
    assert_eq!(2, twisted(3).multiply(twisted(4)).co[0]);
    assert_eq!(1, twisted(3).multiply(twisted(5)).co[0]);
    assert_eq!(2, twisted(5).multiply(twisted(3)).co[0]);
    assert_eq!(0, twisted(4).multiply(twisted(4)).co[0]);
}

#[test]
fn flips_add_modulo_two() {
    let mut flipped = CubieCube::solved();
    flipped.eo[4] = 1;
    assert_eq!(0, flipped.multiply(flipped).eo[4]);
    assert_eq!(1, flipped.multiply(CubieCube::solved()).eo[4]);
    assert_eq!(1, CubieCube::solved().multiply(flipped).eo[4]);
}

#[test]
fn is_wf_refuses_twists_and_flips_out_of_range() {
    assert!(twisted(5).is_wf());
    assert!(!twisted(6).is_wf());
    let mut cube = CubieCube::solved();
    cube.eo[11] = 2;
    assert!(!cube.is_wf());
    cube.eo[11] = 1;
    assert!(cube.is_wf());
}

#[test]
fn corner_and_edge_numbers() {
    assert_eq!(0, Corner::URF.index());
    assert_eq!(3, Corner::UBR.index());
    assert_eq!(7, Corner::DRB.index());
    assert_eq!(0, Edge::UR.index());
    assert_eq!(8, Edge::FR.index());
    assert_eq!(11, Edge::BR.index());
    for i in 0..8 {
        assert_eq!(Some(i), Corner::from_index(i).map(|c| c.index()));
    }
    for i in 0..12 {
        assert_eq!(Some(i), Edge::from_index(i).map(|e| e.index()));
    }
    assert_eq!(None, Corner::from_index(8));
    assert_eq!(None, Edge::from_index(12));
}

#[test]
fn random_cube_is_well_formed_and_differs_from_run_to_run() {
    assert_eq!(CubieCube::solved(), CubieCube::random(0));
    let mut seen_other = false;
    for _ in 0..20 {
        let cube = CubieCube::random(30);
        assert!(cube.is_wf());
        assert!(cube.co.iter().all(|&twist| twist < 3));
        let mut corners = corners(&cube);
        corners.sort();
        assert_eq!(vec![0, 1, 2, 3, 4, 5, 6, 7], corners);
        let mut edges = edges(&cube);
        edges.sort();
        assert_eq!(vec![0, 1, 2, 3, 4, 5, 6, 7, 8, 9, 10, 11], edges);
        if cube != CubieCube::solved() {
            seen_other = true;
        }
    }
    assert!(seen_other);
}

#[test]
fn one_random_move_is_one_of_the_eighteen() {
    for _ in 0..50 {
        let cube = CubieCube::random(1);
        assert!(Move::available()
            .iter()
            .any(|action| CubieCube::solved().apply_move(action) == cube));
    }
}

fn inversions(values: &[usize]) -> usize {
    let mut count = 0;
    for i in 0..values.len() {
        for j in i + 1..values.len() {
            if values[i] > values[j] {
                count += 1;
            }
        }
    }
    count
}

#[test]
fn scrambled_cubes_are_physical() {
    for _ in 0..50 {
        let cube = CubieCube::random(40);
        let twists: u32 = cube.co.iter().map(|&twist| twist as u32).sum();
        let flips: u32 = cube.eo.iter().map(|&flip| flip as u32).sum();
        assert_eq!(0, twists % 3);
        assert_eq!(0, flips % 2);
        assert_eq!(
            inversions(&corners(&cube)) % 2,
            inversions(&edges(&cube)) % 2
        );
        assert_eq!(4, edges(&cube).iter().filter(|&&edge| edge >= 8).count());
    }
}
