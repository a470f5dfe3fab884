//! Tidying a move sequence: turns of one face that follow each other are
//! merged into a single turn, or dropped where they cancel.

use vstd::prelude::*;

use crate::cube_laws::{
    lemma_apply_move_is_multiply,
    lemma_apply_moves_push,
    lemma_apply_moves_wf,
    lemma_base_move_wf,
    lemma_multiply_assoc,
    lemma_multiply_identity,
    lemma_multiply_wf,
    lemma_quarter_turn_order,
};
use crate::cubie_cube::CubieState;
use crate::moves::{Direction, Move, Position};

verus! {

/// What one more move makes of a tidy sequence. If the sequence ends in a
/// turn of the same face, the two turns become the one turn that their
/// quarter turns add up to, or nothing if they add up to a full turn;
/// otherwise the move is appended.
pub open spec fn simplify_step(tidy: Seq<Move>, action: Move) -> Seq<Move> {
    if tidy.len() > 0 && tidy.last().0 == action.0 {
        match Direction::of_quarter_turns(
            action.1.quarter_turns() + tidy.last().1.quarter_turns(),
        ) {
            Some(direction) => tidy.drop_last().push(Move(action.0, direction)),
            None => tidy.drop_last(),
        }
    } else {
        tidy.push(action)
    }
}

/// The tidy form of a sequence: its moves taken one by one, from the left.
pub open spec fn simplify(solution: Seq<Move>) -> Seq<Move>
    decreases solution.len(),
{
    if solution.len() == 0 {
        Seq::empty()
    } else {
        simplify_step(simplify(solution.drop_last()), solution.last())
    }
}

/// No two neighbours in the sequence turn the same face.
pub open spec fn no_adjacent_same_face(actions: Seq<Move>) -> bool {
    forall|i: int, j: int|
        0 <= i && j == i + 1 && j < actions.len() ==> (#[trigger] actions[i]).0 != (
        #[trigger] actions[j]).0
}

/// Merges neighbouring turns of one face, in a single pass from the left.
pub fn simplify_multi_face_moves(solution: &Vec<Move>) -> (simplified_solution: Vec<Move>)
    ensures
        simplified_solution@ == simplify(solution@),
{
    let mut simplified_solution: Vec<Move> = Vec::new();
    let mut i: usize = 0;
    assert(solution@.take(0) =~= Seq::<Move>::empty());
    while i < solution.len()
        invariant
            i <= solution.len(),
            simplified_solution@ == simplify(solution@.take(i as int)),
        decreases solution.len() - i,
    {
        let Move(position, direction) = solution[i];
        proof {
            let next = solution@.take(i as int + 1);
            assert(next.drop_last() =~= solution@.take(i as int));
            assert(next.last() == solution@[i as int]);
        }
        let ghost tidy = simplified_solution@;
        let len = simplified_solution.len();
        if len > 0 && simplified_solution[len - 1].0 == position {
            let last_direction = simplified_solution[len - 1].1;
            simplified_solution.pop();
            assert(simplified_solution@ =~= tidy.drop_last());
            match Direction::from_quarter_turns(
                direction.to_quarter_turns() + last_direction.to_quarter_turns(),
            ) {
                Some(new_direction) => {
                    simplified_solution.push(Move(position, new_direction));
                },
                None => {},
            }
        } else {
            simplified_solution.push(Move(position, direction));
        }
        i += 1;
    }
    assert(solution@.take(i as int) =~= solution@);
    simplified_solution
}

/// A tidy sequence has no two neighbouring turns of one face, and is no
/// longer than the sequence it was made from.
pub proof fn lemma_simplify_no_adjacent(solution: Seq<Move>)
    ensures
        no_adjacent_same_face(simplify(solution)),
        simplify(solution).len() <= solution.len(),
    decreases solution.len(),
{
    if solution.len() > 0 {
        lemma_simplify_no_adjacent(solution.drop_last());
        let tidy = simplify(solution.drop_last());
        let action = solution.last();
        lemma_step_no_adjacent(tidy, action);
    }
}

/// One more move leaves a sequence without neighbouring turns of one face
/// so, and makes it longer by one move at most.
pub proof fn lemma_step_no_adjacent(tidy: Seq<Move>, action: Move)
    requires
        no_adjacent_same_face(tidy),
    ensures
        no_adjacent_same_face(simplify_step(tidy, action)),
        simplify_step(tidy, action).len() <= tidy.len() + 1,
{
    let next = simplify_step(tidy, action);
    if tidy.len() > 0 && tidy.last().0 == action.0 {
        let merged = Direction::of_quarter_turns(
            action.1.quarter_turns() + tidy.last().1.quarter_turns(),
        );
        let kept = tidy.drop_last();
        match merged {
            Some(direction) => {
                assert(next == kept.push(Move(action.0, direction)));
                assert forall|i: int, j: int| 0 <= i && j == i + 1 && j < next.len() implies (
                #[trigger] next[i]).0 != (#[trigger] next[j]).0 by {
                    assert(tidy[i].0 != tidy[j].0);
                    assert(next[i] == tidy[i]);
                    assert(next[j].0 == tidy[j].0);
                }
            },
            None => {
                assert(next == kept);
                assert forall|i: int, j: int| 0 <= i && j == i + 1 && j < next.len() implies (
                #[trigger] next[i]).0 != (#[trigger] next[j]).0 by {
                    assert(tidy[i].0 != tidy[j].0);
                }
            },
        }
    } else {
        assert(next == tidy.push(action));
        assert forall|i: int, j: int| 0 <= i && j == i + 1 && j < next.len() implies (
        #[trigger] next[i]).0 != (#[trigger] next[j]).0 by {
            if j < tidy.len() {
                assert(tidy[i].0 != tidy[j].0);
            } else {
                assert(next[i] == tidy.last());
                assert(next[j] == action);
            }
        }
    }
}

/// Two turns of one face, one after the other, do what the single turn does
/// that their quarter turns add up to; they do nothing if they add up to a
/// full turn.
pub proof fn lemma_merge_turns(cube: CubieState, face: Position, first: Direction, second: Direction)
    requires
        cube.wf(),
    ensures
        cube.apply_move(Move(face, first)).apply_move(Move(face, second))
            == match Direction::of_quarter_turns(second.quarter_turns() + first.quarter_turns()) {
            Some(direction) => cube.apply_move(Move(face, direction)),
            None => cube,
        },
{
    let base = CubieState::base_move(face);
    let b2 = base.multiply(base);
    let b3 = b2.multiply(base);
    let one = CubieState::of_move(Move(face, first));
    let two = CubieState::of_move(Move(face, second));
    lemma_base_move_wf(face);
    lemma_multiply_wf(base, base);
    lemma_multiply_wf(b2, base);
    lemma_quarter_turn_order(face);
    lemma_apply_move_is_multiply(cube, Move(face, first));
    lemma_apply_move_is_multiply(cube.multiply(one), Move(face, second));
    lemma_multiply_assoc(cube, one, two);
    lemma_multiply_identity(cube);
    lemma_multiply_identity(base);
    lemma_multiply_identity(b2);
    lemma_multiply_identity(b3);
    // the products of the powers of the base cube
    lemma_multiply_assoc(base, base, base);
    lemma_multiply_assoc(base, b2, base);
    lemma_multiply_assoc(b2, base, base);
    lemma_multiply_assoc(b2, b2, base);
    lemma_multiply_assoc(b3, base, base);
    lemma_multiply_assoc(b3, b2, base);
    match Direction::of_quarter_turns(second.quarter_turns() + first.quarter_turns()) {
        Some(direction) => {
            lemma_apply_move_is_multiply(cube, Move(face, direction));
        },
        None => {},
    }
}

/// Tidying a sequence does not change what the sequence does to a cube.
pub proof fn lemma_simplify_same_effect(cube: CubieState, solution: Seq<Move>)
    requires
        cube.wf(),
    ensures
        cube.apply_moves(simplify(solution)) == cube.apply_moves(solution),
    decreases solution.len(),
{
    if solution.len() > 0 {
        let init = solution.drop_last();
        let action = solution.last();
        let tidy = simplify(init);
        lemma_simplify_same_effect(cube, init);
        if tidy.len() > 0 && tidy.last().0 == action.0 {
            let before = cube.apply_moves(tidy.drop_last());
            lemma_apply_moves_wf(cube, tidy.drop_last());
            lemma_merge_turns(before, action.0, tidy.last().1, action.1);
            match Direction::of_quarter_turns(
                action.1.quarter_turns() + tidy.last().1.quarter_turns(),
            ) {
                Some(direction) => {
                    lemma_apply_moves_push(cube, tidy.drop_last(), Move(action.0, direction));
                },
                None => {},
            }
        } else {
            lemma_apply_moves_push(cube, tidy, action);
        }
    }
}

} // verus!
