use solver::error::Error;
use solver::{apply_cube_moves, rand_cube, solve_cube};

const SOLVED: &str = "WWWWWWWWWRRRRRRRRRGGGGGGGGGYYYYYYYYYOOOOOOOOOBBBBBBBBB";

fn texts(items: &[&str]) -> Vec<String> {
    items.iter().map(|s| s.to_string()).collect()
}

#[test]
fn solved_text_needs_no_moves() {
    assert_eq!(Ok(vec![]), solve_cube(SOLVED.to_string()));
}

#[test]
fn solution_in_notation_solves_the_cube() {
    let scrambled = "OGOYWWWWYRBYRRRORRORBYGGWOBBWYBYYRWWWBBGOOGORGOGBBYGGY";
    let solution = solve_cube(scrambled.to_string()).unwrap();
    assert!(!solution.is_empty());
    for pair in solution.windows(2) {
        assert_ne!(pair[0].chars().next(), pair[1].chars().next());
    }
    assert_eq!(
        Ok(SOLVED.to_string()),
        apply_cube_moves(scrambled.to_string(), solution)
    );
}

#[test]
fn solve_cube_refuses_text_that_is_no_cube() {
    assert_eq!(
        Err(Error::UnknownColour),
        solve_cube("not a cube".to_string())
    );
    assert_eq!(Err(Error::InvalidFaceletCube), solve_cube("".to_string()));
    assert_eq!(
        Err(Error::InvalidFaceletCube),
        solve_cube(SOLVED[1..].to_string())
    );
}

#[test]
fn solve_cube_reports_a_cube_that_cannot_be_solved() {
    // the two stickers of the edge between Up and Right are swapped
    let mut text = String::from(SOLVED);
    text.replace_range(5..6, "R");
    text.replace_range(10..11, "W");
    assert_eq!(Err(Error::Unsolvable), solve_cube(text));
}

#[test]
fn moves_in_notation_are_applied_in_order() {
    assert_eq!(
        Ok("WWWWWWWWWBBBRRRRRRRRRGGGGGGYYYYYYYYYGGGOOOOOOOOOBBBBBB".to_string()),
        apply_cube_moves(SOLVED.to_string(), texts(&["U"]))
    );
    assert_eq!(
        Ok(SOLVED.to_string()),
        apply_cube_moves(SOLVED.to_string(), texts(&["U", "U'"]))
    );
    assert_eq!(
        Ok(SOLVED.to_string()),
        apply_cube_moves(SOLVED.to_string(), vec![])
    );
    assert_eq!(
        apply_cube_moves(SOLVED.to_string(), texts(&["F2"])),
        apply_cube_moves(SOLVED.to_string(), texts(&["F", "F"]))
    );
    assert_ne!(
        apply_cube_moves(SOLVED.to_string(), texts(&["F", "R"])),
        apply_cube_moves(SOLVED.to_string(), texts(&["R", "F"]))
    );
}

#[test]
fn unknown_move_is_reported_before_a_bad_cube() {
    assert_eq!(
        Err(Error::UnknownMove),
        apply_cube_moves(SOLVED.to_string(), texts(&["U", "X"]))
    );
    assert_eq!(
        Err(Error::UnknownMove),
        apply_cube_moves("bad".to_string(), texts(&[""]))
    );
    assert_eq!(
        Err(Error::UnknownColour),
        apply_cube_moves("bad".to_string(), texts(&["U"]))
    );
    assert_eq!(
        Err(Error::InvalidFaceletCube),
        apply_cube_moves("WW".to_string(), vec![])
    );
}

#[test]
fn random_cube_is_a_text_of_nine_stickers_per_colour() {
    let text = rand_cube();
    assert_eq!(54, text.chars().count());
    for letter in ['W', 'R', 'G', 'Y', 'O', 'B'] {
        assert_eq!(9, text.chars().filter(|&c| c == letter).count());
    }
    assert!(apply_cube_moves(text, vec![]).is_ok());
}

#[test]
fn random_cube_can_be_solved() {
    let text = rand_cube();
    let solution = solve_cube(text.clone()).unwrap();
    assert_eq!(Ok(SOLVED.to_string()), apply_cube_moves(text, solution));
}
