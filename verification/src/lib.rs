//! A solver for the 3x3x3 cube: the cube as corner and edge cubies, the face
//! turns that act on it, and a four-phase bidirectional search that finds a
//! sequence of turns leading back to the solved cube.
//!
//! Cubes go in and out as texts of fifty-four colour letters, moves as texts
//! in the usual notation (`U`, `R'`, `F2`).

use vstd::prelude::*;

pub mod chance;
pub mod congruence;
pub mod conversion;
pub mod conversion_laws;
pub mod cube_laws;
pub mod cubie_cube;
pub mod error;
pub mod facelet_cube;
pub mod key;
pub mod moves;
pub mod packing;
pub mod parity;
pub mod phase;
pub mod physical;
pub mod pochmann_solver;
pub mod search;
pub mod search_depth;
pub mod search_model;
pub mod search_proof;
pub mod simplify;

pub use crate::cubie_cube::CubieCube;
pub use crate::error::Error;
pub use crate::facelet_cube::FaceletCube;
pub use crate::moves::Move;
pub use crate::pochmann_solver::solve;

use crate::conversion::{cubie_of, facelets_of, turn_facelets_all};
use crate::cubie_cube::CubieState;
use crate::facelet_cube::{facelet_text, parse_facelets};
use crate::pochmann_solver::solution_of;
use crate::simplify::no_adjacent_same_face;

verus! {

/// The notation of each move of a sequence.
pub open spec fn notation(moves: Seq<Move>) -> Seq<Seq<char>> {
    Seq::new(moves.len(), |i: int| moves[i].token())
}

/// The characters of each text of a sequence.
pub open spec fn texts(items: Seq<String>) -> Seq<Seq<char>> {
    Seq::new(items.len(), |i: int| items[i]@)
}

/// The moves that a sequence of texts denotes, if every text denotes one.
pub open spec fn parse_moves(items: Seq<Seq<char>>) -> Option<Seq<Move>> {
    if forall|i: int| 0 <= i < items.len() ==> Move::parse(#[trigger] items[i]) is Some {
        Some(Seq::new(items.len(), |i: int| Move::parse(items[i])->Some_0))
    } else {
        None
    }
}

/// A scrambled cube: the stickers of the cube that a hundred random moves
/// make of the solved cube, as fifty-four colour letters.
pub fn rand_cube() -> (text: String)
    ensures
        exists|actions: Seq<Move>|
            actions.len() == 100 && text@ == facelet_text(
                facelets_of(#[trigger] CubieState::solved().apply_moves(actions)),
            ),
{
    FaceletCube::random(100).to_string()
}

/// Solves the cube that a text of fifty-four colour letters describes. The
/// answer is the notation of moves that lead from that cube to the solved
/// one, no two neighbours turning the same face. A text that is not a cube
/// is refused with the reason; the search failing is reported as
/// `Unsolvable`, which does not happen on the solved cube.
pub fn solve_cube(cube: String) -> (r: Result<Vec<String>, Error>)
    ensures
        match parse_facelets(cube@) {
            Err(e) => r == Err::<Vec<String>, Error>(e),
            Ok(faces) => match solution_of(cubie_of(faces)) {
                Some(moves) => r matches Ok(tokens) && texts(tokens@) == notation(moves),
                None => r == Err::<Vec<String>, Error>(Error::Unsolvable),
            },
        },
        match parse_facelets(cube@) {
            Err(e) => r == Err::<Vec<String>, Error>(e),
            Ok(faces) => match r {
                Ok(tokens) => {
                    &&& exists|moves: Seq<Move>|
                        #[trigger] notation(moves) == texts(tokens@) && cubie_of(
                            faces,
                        ).apply_moves(moves) == CubieState::solved() && no_adjacent_same_face(
                            moves,
                        )
                    &&& cubie_of(faces) == CubieState::solved() ==> tokens@.len() == 0
                },
                Err(e) => e == Error::Unsolvable && cubie_of(faces) != CubieState::solved(),
            },
        },
{
    let faces = match FaceletCube::from_str(cube.as_str()) {
        Ok(faces) => faces,
        Err(e) => {
            return Err(e);
        },
    };
    let cubies = CubieCube::from_facelets(faces);
    match solve(&cubies) {
        Some(solution) => {
            let mut tokens: Vec<String> = Vec::new();
            let mut i: usize = 0;
            while i < solution.len()
                invariant
                    i <= solution.len(),
                    tokens@.len() == i,
                    texts(tokens@) == notation(solution@.take(i as int)),
                decreases solution.len() - i,
            {
                let ghost before = tokens@;
                tokens.push(solution[i].to_string());
                assert forall|j: int| 0 <= j < i + 1 implies texts(tokens@)[j] == notation(
                    solution@.take(i as int + 1),
                )[j] by {
                    if j < i {
                        assert(texts(before)[j] == notation(solution@.take(i as int))[j]);
                    }
                }
                assert(texts(tokens@) =~= notation(solution@.take(i as int + 1)));
                i += 1;
            }
            assert(solution@.take(i as int) =~= solution@);
            Ok(tokens)
        },
        None => Err(Error::Unsolvable),
    }
}

/// Applies moves, given in notation, to the cube that a text of fifty-four
/// colour letters describes, and writes the resulting cube in the same
/// form. The moves are read first: a text that is no move is refused before
/// the cube is looked at.
pub fn apply_cube_moves(cube: String, moves: Vec<String>) -> (r: Result<String, Error>)
    ensures
        match parse_moves(texts(moves@)) {
            None => r == Err::<String, Error>(Error::UnknownMove),
            Some(actions) => match parse_facelets(cube@) {
                Err(e) => r == Err::<String, Error>(e),
                Ok(faces) => r matches Ok(text) && text@ == facelet_text(
                    turn_facelets_all(faces, actions),
                ),
            },
        },
{
    let mut actions: Vec<Move> = Vec::new();
    let mut i: usize = 0;
    while i < moves.len()
        invariant
            i <= moves.len(),
            actions@.len() == i,
            forall|j: int|
                0 <= j < i ==> Move::parse(#[trigger] texts(moves@)[j]) == Some(actions@[j]),
        decreases moves.len() - i,
    {
        match Move::from_str(moves[i].as_str()) {
            Ok(action) => {
                assert(texts(moves@)[i as int] == moves@[i as int]@);
                actions.push(action);
            },
            Err(e) => {
                assert(Move::parse(texts(moves@)[i as int]) is None);
                return Err(Error::UnknownMove);
            },
        }
        i += 1;
    }
    assert(actions@ =~= parse_moves(texts(moves@))->Some_0);
    let faces = match FaceletCube::from_str(cube.as_str()) {
        Ok(faces) => faces,
        Err(e) => {
            return Err(e);
        },
    };
    Ok(faces.apply_moves(&actions).to_string())
}

} // verus!
