//! What holds of composition and of the moves: cubes form a group under
//! `multiply`, each quarter turn has order four, and every move is undone by
//! its inverse.

use vstd::prelude::*;

use crate::cubie_cube::{compose_twist, CubieState};
use crate::moves::{inverse_path, Direction, Move, Position};

verus! {

/// Combining twists stays within the six twist values and is associative.
pub proof fn lemma_compose_twist(x: int, y: int, z: int)
    requires
        0 <= x < 6,
        0 <= y < 6,
        0 <= z < 6,
    ensures
        0 <= compose_twist(x, y) < 6,
        x < 3 && y < 3 ==> compose_twist(x, y) < 3,
        compose_twist(x, 0) == x,
        compose_twist(0, x) == x,
        compose_twist(compose_twist(x, y), z) == compose_twist(x, compose_twist(y, z)),
{
}

/// The product of two well-formed cubes is well-formed, and unmirrored if
/// both factors are.
pub proof fn lemma_multiply_wf(a: CubieState, b: CubieState)
    requires
        a.wf(),
        b.wf(),
    ensures
        a.multiply(b).wf(),
        a.unmirrored() && b.unmirrored() ==> a.multiply(b).unmirrored(),
{
    let p = a.multiply(b);
    assert forall|i: int| 0 <= i < 8 implies 0 <= #[trigger] p.co[i] < 6 by {
        lemma_compose_twist(a.co[b.cp[i]], b.co[i], 0);
    }
    if a.unmirrored() && b.unmirrored() {
        assert forall|i: int| 0 <= i < 8 implies #[trigger] p.co[i] < 3 by {
            lemma_compose_twist(a.co[b.cp[i]], b.co[i], 0);
        }
    }
}

/// Composition is associative.
pub proof fn lemma_multiply_assoc(a: CubieState, b: CubieState, c: CubieState)
    requires
        a.wf(),
        b.wf(),
        c.wf(),
    ensures
        a.multiply(b).multiply(c) == a.multiply(b.multiply(c)),
{
    let l = a.multiply(b).multiply(c);
    let r = a.multiply(b.multiply(c));
    assert(l.cp =~= r.cp);
    assert(l.ep =~= r.ep);
    assert forall|i: int| 0 <= i < 8 implies l.co[i] == r.co[i] by {
        lemma_compose_twist(a.co[b.cp[c.cp[i]]], b.co[c.cp[i]], c.co[i]);
    }
    assert(l.co =~= r.co);
    assert(l.eo =~= r.eo);
}

/// The solved cube is the identity of composition, on either side.
pub proof fn lemma_multiply_identity(a: CubieState)
    requires
        a.wf(),
    ensures
        a.multiply(CubieState::solved()) == a,
        CubieState::solved().multiply(a) == a,
{
    let e = CubieState::solved();
    let l = a.multiply(e);
    let r = e.multiply(a);
    assert(l.cp =~= a.cp);
    assert(l.co =~= a.co);
    assert(l.ep =~= a.ep);
    assert(l.eo =~= a.eo);
    assert(r.cp =~= a.cp);
    assert(r.co =~= a.co);
    assert(r.ep =~= a.ep);
    assert(r.eo =~= a.eo);
}

/// The solved cube composed with itself is the solved cube.
pub proof fn lemma_solved_times_solved()
    ensures
        CubieState::solved().wf(),
        CubieState::solved().unmirrored(),
        CubieState::solved().multiply(CubieState::solved()) == CubieState::solved(),
{
    lemma_multiply_identity(CubieState::solved());
}

/// Each base cube is well-formed and unmirrored.
pub proof fn lemma_base_move_wf(face: Position)
    ensures
        CubieState::base_move(face).wf(),
        CubieState::base_move(face).unmirrored(),
{
}

impl CubieState {
    /// The single cube that a move composes with: the face's base cube
    /// taken once, twice or three times.
    pub open spec fn of_move(action: Move) -> CubieState {
        let base = CubieState::base_move(action.0);
        match action.1 {
            Direction::Normal => base,
            Direction::Half => base.multiply(base),
            Direction::Prime => base.multiply(base).multiply(base),
        }
    }
}

/// Four quarter turns of one face bring every cubie back.
pub proof fn lemma_quarter_turn_order(face: Position)
    ensures
        ({
            let base = CubieState::base_move(face);
            base.multiply(base).multiply(base).multiply(base) == CubieState::solved()
        }),
{
    let base = CubieState::base_move(face);
    let twice = base.multiply(base);
    let thrice = twice.multiply(base);
    let full = thrice.multiply(base);
    let e = CubieState::solved();
    assert(full.cp =~= e.cp);
    assert(full.co =~= e.co);
    assert(full.ep =~= e.ep);
    assert(full.eo =~= e.eo);
}

/// Applying a move is composing with the move's cube.
pub proof fn lemma_apply_move_is_multiply(cube: CubieState, action: Move)
    requires
        cube.wf(),
    ensures
        cube.apply_move(action) == cube.multiply(CubieState::of_move(action)),
        CubieState::of_move(action).wf(),
        CubieState::of_move(action).unmirrored(),
        cube.apply_move(action).wf(),
        cube.unmirrored() ==> cube.apply_move(action).unmirrored(),
{
    let base = CubieState::base_move(action.0);
    lemma_base_move_wf(action.0);
    lemma_multiply_wf(base, base);
    lemma_multiply_wf(base.multiply(base), base);
    lemma_multiply_wf(cube, base);
    lemma_multiply_wf(cube.multiply(base), base);
    lemma_multiply_wf(cube.multiply(base).multiply(base), base);
    lemma_multiply_assoc(cube, base, base);
    lemma_multiply_assoc(cube, base.multiply(base), base);
    lemma_multiply_assoc(cube.multiply(base), base, base);
}

/// A move's cube composed with the cube of the inverse move is the solved
/// cube.
pub proof fn lemma_inverse_cancels(action: Move)
    ensures
        CubieState::of_move(action).multiply(CubieState::of_move(action.spec_inverse()))
            == CubieState::solved(),
{
    let base = CubieState::base_move(action.0);
    let twice = base.multiply(base);
    let thrice = twice.multiply(base);
    lemma_base_move_wf(action.0);
    lemma_multiply_wf(base, base);
    lemma_multiply_wf(twice, base);
    lemma_quarter_turn_order(action.0);
    match action.1 {
        Direction::Normal => {
            // base * (base * base * base)
            lemma_multiply_assoc(base, twice, base);
            lemma_multiply_assoc(base, base, base);
        },
        Direction::Half => {
            // (base * base) * (base * base)
            lemma_multiply_assoc(twice, base, base);
        },
        Direction::Prime => {},
    }
}

/// Applying a move and then its inverse gives back the cube that one
/// started with.
pub proof fn lemma_move_then_inverse(cube: CubieState, action: Move)
    requires
        cube.wf(),
    ensures
        cube.apply_move(action).apply_move(action.spec_inverse()) == cube,
{
    let m = CubieState::of_move(action);
    let n = CubieState::of_move(action.spec_inverse());
    lemma_apply_move_is_multiply(cube, action);
    lemma_apply_move_is_multiply(cube.multiply(m), action.spec_inverse());
    lemma_multiply_assoc(cube, m, n);
    lemma_inverse_cancels(action);
    lemma_multiply_identity(cube);
}

/// A half turn of a face is two quarter turns of that face.
pub proof fn lemma_half_is_two_quarters(cube: CubieState, face: Position)
    ensures
        cube.apply_move(Move(face, Direction::Half)) == cube.apply_move(
            Move(face, Direction::Normal),
        ).apply_move(Move(face, Direction::Normal)),
{
}

/// Composing three times with a face's base cube is composing once with the
/// cube of the face's Prime turn, and that cube undoes the base cube.
pub proof fn lemma_prime_is_three_quarters(cube: CubieState, face: Position)
    requires
        cube.wf(),
    ensures
        ({
            let base = CubieState::base_move(face);
            let prime = CubieState::of_move(Move(face, Direction::Prime));
            &&& cube.multiply(base).multiply(base).multiply(base) == cube.multiply(prime)
            &&& cube.apply_move(Move(face, Direction::Prime)) == cube.multiply(prime)
            &&& base.multiply(prime) == CubieState::solved()
        }),
{
    lemma_apply_move_is_multiply(cube, Move(face, Direction::Prime));
    lemma_inverse_cancels(Move(face, Direction::Normal));
}

/// A sequence of moves takes a well-formed cube to a well-formed cube, and
/// an unmirrored one to an unmirrored one.
pub proof fn lemma_apply_moves_wf(cube: CubieState, actions: Seq<Move>)
    requires
        cube.wf(),
    ensures
        cube.apply_moves(actions).wf(),
        cube.unmirrored() ==> cube.apply_moves(actions).unmirrored(),
    decreases actions.len(),
{
    if actions.len() > 0 {
        lemma_apply_moves_wf(cube, actions.drop_last());
        lemma_apply_move_is_multiply(cube.apply_moves(actions.drop_last()), actions.last());
    }
}

/// Applying a sequence with one more move at its end is applying the
/// sequence and then the move.
pub proof fn lemma_apply_moves_push(cube: CubieState, actions: Seq<Move>, action: Move)
    ensures
        cube.apply_moves(actions.push(action)) == cube.apply_moves(actions).apply_move(action),
{
    assert(actions.push(action).drop_last() =~= actions);
}

/// Applying two sequences one after the other is applying their
/// concatenation.
pub proof fn lemma_apply_moves_concat(cube: CubieState, first: Seq<Move>, second: Seq<Move>)
    ensures
        cube.apply_moves(first + second) == cube.apply_moves(first).apply_moves(second),
    decreases second.len(),
{
    if second.len() == 0 {
        assert(first + second =~= first);
    } else {
        lemma_apply_moves_concat(cube, first, second.drop_last());
        assert((first + second).drop_last() =~= first + second.drop_last());
        assert((first + second).last() == second.last());
    }
}

/// A sequence of moves followed by its inverse sequence gives back the cube
/// that one started with.
pub proof fn lemma_path_then_inverse(cube: CubieState, actions: Seq<Move>)
    requires
        cube.wf(),
    ensures
        cube.apply_moves(actions).apply_moves(inverse_path(actions)) == cube,
    decreases actions.len(),
{
    if actions.len() == 0 {
        assert(inverse_path(actions) =~= Seq::<Move>::empty());
    } else {
        let init = actions.drop_last();
        let last = actions.last();
        let before = cube.apply_moves(init);
        let after = cube.apply_moves(actions);
        lemma_apply_moves_wf(cube, init);
        lemma_move_then_inverse(before, last);
        lemma_path_then_inverse(cube, init);
        let undo_last = seq![last.spec_inverse()];
        assert(inverse_path(actions) =~= undo_last + inverse_path(init));
        lemma_apply_moves_concat(after, undo_last, inverse_path(init));
        assert(undo_last =~= Seq::<Move>::empty().push(last.spec_inverse()));
        lemma_apply_moves_push(after, Seq::<Move>::empty(), last.spec_inverse());
    }
}

} // verus!
