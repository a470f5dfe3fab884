//! The phase ids as congruences: on the cubes that matter, what a move
//! makes of the id of a cube depends on the id alone. Hence the search of a
//! phase is exact on them: it finds an answer whenever two paths meet, and
//! its answer leads to a cube with the id of the solved cube.

use vstd::prelude::*;

use crate::cube_laws::{lemma_apply_move_is_multiply, lemma_base_move_wf, lemma_multiply_wf};
use crate::cubie_cube::CubieState;
use crate::moves::{Move, Position};
use crate::packing::{
    lemma_corner_classes_apart,
    lemma_corner_classes_same,
    lemma_edge_classes_apart,
    lemma_edge_classes_same,
    lemma_or_zero,
    lemma_slice_mask_read,
    lemma_slice_mask_same,
    lemma_small_start,
    slice_bit,
};
use crate::parity::lemma_quarter_turn_changes_parity;
use crate::phase::{
    corner_class,
    corner_classes,
    edge_class,
    edge_classes,
    inversions,
    lemma_pochmann_cube_injective,
    phase_id,
    pochmann_corner,
    pochmann_cube,
    pochmann_edge,
    slice_mask,
    Phase,
};
use crate::moves::inverse_path;
use crate::physical::{
    lemma_base_move_balanced,
    lemma_move_keeps_bijective,
    lemma_move_keeps_balanced,
    lemma_multiply_bijective,
    lemma_solved_balanced,
    middle,
};
use crate::search::{congruent_from, is_meeting_path, meets};

verus! {

/// Two well-formed cubes have the same phase-one id exactly if their edges
/// are flipped alike.
pub proof fn lemma_phase_one_id_is_flips(a: CubieState, b: CubieState)
    requires
        a.wf(),
        b.wf(),
    ensures
        phase_id(Phase::One, a) == phase_id(Phase::One, b) <==> a.eo == b.eo,
{
    let ia = phase_id(Phase::One, a);
    let ib = phase_id(Phase::One, b);
    if ia == ib {
        assert forall|i: int| 0 <= i < 12 implies a.eo[i] == b.eo[i] by {
            let k = pochmann_edge(i);
            assert(pochmann_edge(k) == i);
            assert(ia[k] == pochmann_cube(a)[20 + k]);
            assert(ib[k] == pochmann_cube(b)[20 + k]);
            assert(pochmann_cube(a)[20 + k] == a.eo[i] as u32);
            assert(pochmann_cube(b)[20 + k] == b.eo[i] as u32);
            assert(0 <= a.eo[i] < 2 && 0 <= b.eo[i] < 2);
        }
        assert(a.eo =~= b.eo);
    }
    if a.eo == b.eo {
        assert(ia =~= ib);
    }
}

/// The cubes on which the id of a phase is known to be a congruence:
/// every well-formed cube in the first and in the last phase, every balanced
/// cube in the second, and every cube without doubled cubies in the third.
pub open spec fn search_is_exact(phase: Phase, cube: CubieState) -> bool {
    cube.wf() && match phase {
        Phase::One => true,
        Phase::Two => cube.balanced(),
        Phase::Three => cube.bijective(),
        Phase::Four => true,
    }
}

/// A move changes the flips of a cube in a way that depends on the flips
/// alone.
proof fn lemma_phase_one_step(x: CubieState, y: CubieState, action: Move)
    requires
        x.wf(),
        y.wf(),
        phase_id(Phase::One, x) == phase_id(Phase::One, y),
    ensures
        phase_id(Phase::One, x.apply_move(action)) == phase_id(Phase::One, y.apply_move(action)),
{
    lemma_phase_one_id_is_flips(x, y);
    lemma_apply_move_is_multiply(x, action);
    lemma_apply_move_is_multiply(y, action);
    let turn = CubieState::of_move(action);
    assert(x.multiply(turn).eo =~= y.multiply(turn).eo);
    lemma_phase_one_id_is_flips(x.apply_move(action), y.apply_move(action));
}

/// The entries of the forty-number form of a well-formed cube.
pub proof fn lemma_pochmann_entries(cube: CubieState)
    requires
        cube.wf(),
    ensures
        pochmann_cube(cube).len() == 40,
        forall|k: int|
            0 <= k < 12 ==> #[trigger] pochmann_cube(cube)[k] == pochmann_edge(
                cube.ep[pochmann_edge(k)],
            ),
        forall|k: int|
            12 <= k < 20 ==> #[trigger] pochmann_cube(cube)[k] == 12 + pochmann_corner(
                cube.cp[pochmann_corner(k - 12)],
            ),
        forall|k: int|
            32 <= k < 40 ==> #[trigger] pochmann_cube(cube)[k] == cube.co[pochmann_corner(k - 32)],
{
    assert forall|k: int| 0 <= k < 12 implies #[trigger] pochmann_cube(cube)[k] == pochmann_edge(
        cube.ep[pochmann_edge(k)],
    ) by {
        assert(0 <= cube.ep[pochmann_edge(k)] < 12);
    }
    assert forall|k: int| 12 <= k < 20 implies #[trigger] pochmann_cube(cube)[k] == 12
        + pochmann_corner(cube.cp[pochmann_corner(k - 12)]) by {
        assert(0 <= cube.cp[pochmann_corner(k - 12)] < 8);
    }
    assert forall|k: int| 32 <= k < 40 implies #[trigger] pochmann_cube(cube)[k]
        == cube.co[pochmann_corner(k - 32)] by {
        assert(0 <= cube.co[pochmann_corner(k - 32)] < 6);
    }
}

/// The forty-number form of a product holds the edges and corners of the
/// first factor, fetched as the second factor says.
pub proof fn lemma_pochmann_of_product(cube: CubieState, turn: CubieState)
    requires
        cube.wf(),
        turn.wf(),
    ensures
        forall|k: int|
            0 <= k < 12 ==> #[trigger] pochmann_cube(cube.multiply(turn))[k] == pochmann_cube(
                cube,
            )[pochmann_edge(turn.ep[pochmann_edge(k)])],
        forall|k: int|
            12 <= k < 20 ==> #[trigger] pochmann_cube(cube.multiply(turn))[k] == pochmann_cube(
                cube,
            )[12 + pochmann_corner(turn.cp[pochmann_corner(k - 12)])],
{
    let product = cube.multiply(turn);
    lemma_multiply_wf(cube, turn);
    lemma_pochmann_entries(cube);
    lemma_pochmann_entries(product);
    assert forall|k: int| 0 <= k < 12 implies #[trigger] pochmann_cube(product)[k]
        == pochmann_cube(cube)[pochmann_edge(turn.ep[pochmann_edge(k)])] by {
        let from = turn.ep[pochmann_edge(k)];
        assert(0 <= from < 12);
        assert(pochmann_edge(pochmann_edge(from)) == from);
        assert(product.ep[pochmann_edge(k)] == cube.ep[from]);
        assert(pochmann_cube(cube)[pochmann_edge(from)] == pochmann_edge(
            cube.ep[pochmann_edge(pochmann_edge(from))],
        ));
    }
    assert forall|k: int| 12 <= k < 20 implies #[trigger] pochmann_cube(product)[k]
        == pochmann_cube(cube)[12 + pochmann_corner(turn.cp[pochmann_corner(k - 12)])] by {
        let from = turn.cp[pochmann_corner(k - 12)];
        assert(0 <= from < 8);
        assert(pochmann_corner(pochmann_corner(from)) == from);
        assert(product.cp[pochmann_corner(k - 12)] == cube.cp[from]);
        assert(pochmann_cube(cube)[12 + pochmann_corner(from)] == 12 + pochmann_corner(
            cube.cp[pochmann_corner(12 + pochmann_corner(from) - 12)],
        ));
    }
}

/// Two cubes look alike to phase three: slot by slot their edges and
/// corners are of the same class, and their corners have the same parity.
pub open spec fn same_classes(a: CubieState, b: CubieState) -> bool {
    let pa = pochmann_cube(a);
    let pb = pochmann_cube(b);
    &&& forall|k: int| 0 <= k < 12 ==> edge_class(#[trigger] pa[k]) == edge_class(pb[k])
    &&& forall|k: int| 12 <= k < 20 ==> corner_class(#[trigger] pa[k]) == corner_class(pb[k])
    &&& inversions(pa, 20) % 2 == inversions(pb, 20) % 2
}

/// Two well-formed cubes have the same phase-three id exactly if they look
/// alike to phase three.
pub proof fn lemma_phase_three_id_is_classes(a: CubieState, b: CubieState)
    requires
        a.wf(),
        b.wf(),
    ensures
        phase_id(Phase::Three, a) == phase_id(Phase::Three, b) <==> same_classes(a, b),
{
    let pa = pochmann_cube(a);
    let pb = pochmann_cube(b);
    let ia = phase_id(Phase::Three, a);
    let ib = phase_id(Phase::Three, b);
    assert(ia[0] == edge_classes(pa, 12) && ib[0] == edge_classes(pb, 12));
    assert(ia[1] == corner_classes(pa, 8) && ib[1] == corner_classes(pb, 8));
    assert(ia[2] == (inversions(pa, 20) % 2) as u32 && ib[2] == (inversions(pb, 20) % 2) as u32);
    if ia == ib {
        lemma_edge_classes_apart(pa, pb);
        lemma_corner_classes_apart(pa, pb);
    }
    if same_classes(a, b) {
        lemma_edge_classes_same(pa, pb, 12);
        lemma_corner_classes_same(pa, pb, 8);
        assert(ia =~= ib);
    }
}

/// A quarter turn makes cubes that look alike to phase three of cubes that
/// look alike to it, if they have no corner twice.
pub proof fn lemma_quarter_turn_keeps_classes(a: CubieState, b: CubieState, face: Position)
    requires
        a.wf(),
        b.wf(),
        a.bijective(),
        b.bijective(),
        same_classes(a, b),
    ensures
        ({
            let base = CubieState::base_move(face);
            &&& a.multiply(base).wf()
            &&& b.multiply(base).wf()
            &&& a.multiply(base).bijective()
            &&& b.multiply(base).bijective()
            &&& same_classes(a.multiply(base), b.multiply(base))
        }),
{
    let base = CubieState::base_move(face);
    let x = a.multiply(base);
    let y = b.multiply(base);
    lemma_base_move_wf(face);
    lemma_base_move_balanced(face);
    lemma_multiply_wf(a, base);
    lemma_multiply_wf(b, base);
    lemma_multiply_bijective(a, base);
    lemma_multiply_bijective(b, base);
    let pa = pochmann_cube(a);
    let pb = pochmann_cube(b);
    let px = pochmann_cube(x);
    let py = pochmann_cube(y);
    lemma_pochmann_of_product(a, base);
    lemma_pochmann_of_product(b, base);
    assert forall|k: int| 0 <= k < 12 implies edge_class(#[trigger] px[k]) == edge_class(
        py[k],
    ) by {
        let from = pochmann_edge(base.ep[pochmann_edge(k)]);
        assert(0 <= base.ep[pochmann_edge(k)] < 12);
        assert(px[k] == pa[from] && py[k] == pb[from]);
        assert(edge_class(pa[from]) == edge_class(pb[from]));
    }
    assert forall|k: int| 12 <= k < 20 implies corner_class(#[trigger] px[k]) == corner_class(
        py[k],
    ) by {
        let from = 12 + pochmann_corner(base.cp[pochmann_corner(k - 12)]);
        assert(0 <= base.cp[pochmann_corner(k - 12)] < 8);
        assert(px[k] == pa[from] && py[k] == pb[from]);
        assert(corner_class(pa[from]) == corner_class(pb[from]));
    }
    lemma_quarter_turn_changes_parity(a, face);
    lemma_quarter_turn_changes_parity(b, face);
}

/// A move makes cubes with the same phase-three id of cubes with the same
/// phase-three id, if they have no cubie twice.
proof fn lemma_phase_three_step(x: CubieState, y: CubieState, action: Move)
    requires
        x.wf(),
        y.wf(),
        x.bijective(),
        y.bijective(),
        phase_id(Phase::Three, x) == phase_id(Phase::Three, y),
    ensures
        phase_id(Phase::Three, x.apply_move(action)) == phase_id(
            Phase::Three,
            y.apply_move(action),
        ),
{
    lemma_phase_three_id_is_classes(x, y);
    let base = CubieState::base_move(action.0);
    lemma_quarter_turn_keeps_classes(x, y, action.0);
    lemma_quarter_turn_keeps_classes(x.multiply(base), y.multiply(base), action.0);
    lemma_quarter_turn_keeps_classes(
        x.multiply(base).multiply(base),
        y.multiply(base).multiply(base),
        action.0,
    );
    lemma_phase_three_id_is_classes(x.apply_move(action), y.apply_move(action));
}

/// Two cubes look alike to phase two: slot by slot their corners are
/// twisted alike, and the same edge slots hold edges of the middle slice.
pub open spec fn same_twists(a: CubieState, b: CubieState) -> bool {
    &&& a.co == b.co
    &&& forall|k: int| 0 <= k < 12 ==> middle(#[trigger] a.ep[k]) == middle(b.ep[k])
}

/// The middle-slice mark of slot `k` of the forty-number form of a cube.
pub open spec fn slot_mark(cube: CubieState, k: int) -> int {
    middle(cube.ep[pochmann_edge(k)])
}

/// The middle-slice mark of each slot of the forty-number form.
proof fn lemma_slice_bits(cube: CubieState)
    requires
        cube.wf(),
    ensures
        forall|k: int|
            0 <= k < 12 ==> #[trigger] slice_bit(pochmann_cube(cube), k) == middle(
                cube.ep[pochmann_edge(k)],
            ),
        forall|k: int| 0 <= k < 12 ==> #[trigger] pochmann_cube(cube)[k] < 16,
{
    lemma_pochmann_entries(cube);
    assert forall|k: int| 0 <= k < 12 implies #[trigger] slice_bit(pochmann_cube(cube), k)
        == middle(cube.ep[pochmann_edge(k)]) by {
        let edge = cube.ep[pochmann_edge(k)];
        assert(0 <= edge < 12);
        assert(pochmann_cube(cube)[k] == pochmann_edge(edge));
    }
    assert forall|k: int| 0 <= k < 12 implies #[trigger] pochmann_cube(cube)[k] < 16 by {
        assert(0 <= cube.ep[pochmann_edge(k)] < 12);
    }
}

/// Cubes that look alike to phase two have the same phase-two id.
pub proof fn lemma_same_twists_same_id(a: CubieState, b: CubieState)
    requires
        a.wf(),
        b.wf(),
        same_twists(a, b),
    ensures
        phase_id(Phase::Two, a) == phase_id(Phase::Two, b),
{
    let pa = pochmann_cube(a);
    let pb = pochmann_cube(b);
    lemma_pochmann_entries(a);
    lemma_pochmann_entries(b);
    lemma_slice_bits(a);
    lemma_slice_bits(b);
    assert forall|k: int| 32 <= k < 40 implies pa[k] == pb[k] by {
        assert(pa[k] == a.co[pochmann_corner(k - 32)]);
        assert(pb[k] == b.co[pochmann_corner(k - 32)]);
    }
    assert forall|k: int| 0 <= k < 12 implies #[trigger] slice_bit(pa, k) == slice_bit(pb, k) by {
        assert(0 <= pochmann_edge(k) < 12);
        assert(middle(a.ep[pochmann_edge(k)]) == middle(b.ep[pochmann_edge(k)]));
    }
    lemma_slice_mask_same(pa, pb, pa[32], 12);
    assert(phase_id(Phase::Two, a) =~= phase_id(Phase::Two, b));
}

/// Balanced cubes with the same phase-two id look alike to phase two. The
/// id leaves out the twist of one corner and may hide the mark of one edge
/// slot; the one follows from the other twists, the other from the number
/// of middle-slice edges.
pub proof fn lemma_same_id_same_twists(a: CubieState, b: CubieState)
    requires
        a.balanced(),
        b.balanced(),
        phase_id(Phase::Two, a) == phase_id(Phase::Two, b),
    ensures
        same_twists(a, b),
{
    reveal(CubieState::twist_total);
    reveal(CubieState::middle_count);
    let pa = pochmann_cube(a);
    let pb = pochmann_cube(b);
    let ia = phase_id(Phase::Two, a);
    let ib = phase_id(Phase::Two, b);
    lemma_pochmann_entries(a);
    lemma_pochmann_entries(b);
    lemma_slice_bits(a);
    lemma_slice_bits(b);
    // the twists of all corners but the first
    assert forall|i: int| 1 <= i < 8 implies a.co[i] == b.co[i] by {
        let k = pochmann_corner(i);
        assert(1 <= k < 8 && pochmann_corner(k) == i);
        assert(ia[k] == pa[32 + k] && ib[k] == pb[32 + k]);
        assert(pa[32 + k] == a.co[pochmann_corner(32 + k - 32)]);
        assert(pb[32 + k] == b.co[pochmann_corner(32 + k - 32)]);
        assert(0 <= a.co[i] < 3 && 0 <= b.co[i] < 3);
    }
    // the twist of the first corner
    assert(0 <= a.co[0] < 3 && 0 <= b.co[0] < 3);
    assert(a.co[0] == b.co[0]) by {
        let rest = a.co[1] + a.co[2] + a.co[3] + a.co[4] + a.co[5] + a.co[6] + a.co[7];
        assert(a.twist_total() == a.co[0] + rest);
        assert(b.twist_total() == b.co[0] + rest);
    }
    assert(a.co =~= b.co);
    // the marks of the edge slots
    let start = pa[32];
    assert(start == pb[32]);
    assert(start == a.co[0]);
    assert(ia[0] == slice_mask(pa, start, 12) && ib[0] == slice_mask(pb, start, 12));
    assert forall|k: int| 0 <= k < 12 && (k >= 2 || (start >> (k as u32)) & 1 == 0) implies #[trigger] slot_mark(
        a,
        k,
    ) == slot_mark(b, k) by {
        lemma_slice_mask_read(pa, start, 12, k as nat);
        lemma_slice_mask_read(pb, start, 12, k as nat);
        lemma_small_start(start, k as u32);
        lemma_or_zero(slice_bit(pa, k));
        lemma_or_zero(slice_bit(pb, k));
        assert(slice_bit(pa, k) == slot_mark(a, k));
        assert(slice_bit(pb, k) == slot_mark(b, k));
    }
    lemma_small_start(start, 0);
    lemma_small_start(start, 1);
    assert(a.middle_count() == slot_mark(a, 0) + slot_mark(a, 1) + slot_mark(a, 2) + slot_mark(
        a,
        3,
    ) + slot_mark(a, 4) + slot_mark(a, 5) + slot_mark(a, 6) + slot_mark(a, 7) + slot_mark(a, 8)
        + slot_mark(a, 9) + slot_mark(a, 10) + slot_mark(a, 11));
    assert(b.middle_count() == slot_mark(b, 0) + slot_mark(b, 1) + slot_mark(b, 2) + slot_mark(
        b,
        3,
    ) + slot_mark(b, 4) + slot_mark(b, 5) + slot_mark(b, 6) + slot_mark(b, 7) + slot_mark(b, 8)
        + slot_mark(b, 9) + slot_mark(b, 10) + slot_mark(b, 11));
    assert(slot_mark(a, 2) == slot_mark(b, 2) && slot_mark(a, 3) == slot_mark(b, 3) && slot_mark(
        a,
        4,
    ) == slot_mark(b, 4) && slot_mark(a, 5) == slot_mark(b, 5) && slot_mark(a, 6) == slot_mark(
        b,
        6,
    ) && slot_mark(a, 7) == slot_mark(b, 7) && slot_mark(a, 8) == slot_mark(b, 8) && slot_mark(
        a,
        9,
    ) == slot_mark(b, 9) && slot_mark(a, 10) == slot_mark(b, 10) && slot_mark(a, 11)
        == slot_mark(b, 11));
    assert(slot_mark(a, 0) == slot_mark(b, 0) && slot_mark(a, 1) == slot_mark(b, 1));
    assert forall|i: int| 0 <= i < 12 implies middle(#[trigger] a.ep[i]) == middle(b.ep[i]) by {
        let k = pochmann_edge(i);
        assert(0 <= k < 12 && pochmann_edge(k) == i);
        assert(slot_mark(a, k) == slot_mark(b, k));
    }
}

/// Composing with one and the same cube makes cubes that look alike to
/// phase two of cubes that look alike to it.
pub proof fn lemma_multiply_keeps_twists(a: CubieState, b: CubieState, turn: CubieState)
    requires
        a.wf(),
        b.wf(),
        turn.wf(),
        same_twists(a, b),
    ensures
        same_twists(a.multiply(turn), b.multiply(turn)),
{
    let x = a.multiply(turn);
    let y = b.multiply(turn);
    assert(x.co =~= y.co);
    assert forall|k: int| 0 <= k < 12 implies middle(#[trigger] x.ep[k]) == middle(y.ep[k]) by {
        assert(0 <= turn.ep[k] < 12);
        assert(middle(a.ep[turn.ep[k]]) == middle(b.ep[turn.ep[k]]));
    }
}

/// A move makes balanced cubes with the same phase-two id of cubes with
/// the same phase-two id.
proof fn lemma_phase_two_step(x: CubieState, y: CubieState, action: Move)
    requires
        x.balanced(),
        y.balanced(),
        phase_id(Phase::Two, x) == phase_id(Phase::Two, y),
    ensures
        phase_id(Phase::Two, x.apply_move(action)) == phase_id(Phase::Two, y.apply_move(action)),
{
    lemma_same_id_same_twists(x, y);
    lemma_apply_move_is_multiply(x, action);
    lemma_apply_move_is_multiply(y, action);
    lemma_multiply_keeps_twists(x, y, CubieState::of_move(action));
    lemma_same_twists_same_id(x.apply_move(action), y.apply_move(action));
}

/// A move leads from a cube on which a phase id is a congruence to
/// another such cube.
pub proof fn lemma_exact_after_move(phase: Phase, cube: CubieState, action: Move)
    requires
        search_is_exact(phase, cube),
    ensures
        search_is_exact(phase, cube.apply_move(action)),
{
    lemma_apply_move_is_multiply(cube, action);
    match phase {
        Phase::One => {},
        Phase::Two => {
            lemma_move_keeps_balanced(cube, action);
        },
        Phase::Three => {
            lemma_move_keeps_bijective(cube, action);
        },
        Phase::Four => {},
    }
}

/// Moves lead from a cube on which a phase id is a congruence to another
/// such cube.
pub proof fn lemma_exact_after_moves(phase: Phase, cube: CubieState, actions: Seq<Move>)
    requires
        search_is_exact(phase, cube),
    ensures
        search_is_exact(phase, cube.apply_moves(actions)),
    decreases actions.len(),
{
    if actions.len() > 0 {
        lemma_exact_after_moves(phase, cube, actions.drop_last());
        lemma_exact_after_move(phase, cube.apply_moves(actions.drop_last()), actions.last());
    }
}

/// The congruence itself: two cubes with the same phase id have the same
/// phase id after the same move.
pub proof fn lemma_same_id_after_move(phase: Phase, x: CubieState, y: CubieState, action: Move)
    requires
        search_is_exact(phase, x),
        search_is_exact(phase, y),
        phase_id(phase, x) == phase_id(phase, y),
    ensures
        phase_id(phase, x.apply_move(action)) == phase_id(phase, y.apply_move(action)),
{
    match phase {
        Phase::One => {
            lemma_phase_one_step(x, y, action);
        },
        Phase::Two => {
            lemma_phase_two_step(x, y, action);
        },
        Phase::Three => {
            lemma_phase_three_step(x, y, action);
        },
        Phase::Four => {
            lemma_pochmann_cube_injective(x, y);
        },
    }
}

/// Two cubes with the same phase id have the same phase id after the same
/// moves.
pub proof fn lemma_same_id_after_moves(
    phase: Phase,
    x: CubieState,
    y: CubieState,
    actions: Seq<Move>,
)
    requires
        search_is_exact(phase, x),
        search_is_exact(phase, y),
        phase_id(phase, x) == phase_id(phase, y),
    ensures
        phase_id(phase, x.apply_moves(actions)) == phase_id(phase, y.apply_moves(actions)),
    decreases actions.len(),
{
    if actions.len() > 0 {
        let init = actions.drop_last();
        lemma_same_id_after_moves(phase, x, y, init);
        lemma_exact_after_moves(phase, x, init);
        lemma_exact_after_moves(phase, y, init);
        lemma_same_id_after_move(phase, x.apply_moves(init), y.apply_moves(init), actions.last());
    }
}

/// The phase id is a congruence on all that moves reach from a cube on
/// which it is one, and on all that they reach from the solved cube.
pub proof fn lemma_exact_phases_congruent(phase: Phase, start: CubieState)
    requires
        search_is_exact(phase, start),
    ensures
        congruent_from(phase, start),
        congruent_from(phase, CubieState::solved()),
        search_is_exact(phase, CubieState::solved()),
{
    lemma_solved_balanced();
    lemma_congruent_from(phase, start);
    lemma_congruent_from(phase, CubieState::solved());
}

proof fn lemma_congruent_from(phase: Phase, from: CubieState)
    requires
        search_is_exact(phase, from),
    ensures
        congruent_from(phase, from),
{
    assert forall|a: Seq<Move>, b: Seq<Move>, action: Move|
        phase.permits_all(a) && phase.permits_all(b) && phase.permits(action) && phase_id(
            phase,
            from.apply_moves(a),
        ) == phase_id(phase, from.apply_moves(b)) implies #[trigger] phase_id(
        phase,
        from.apply_moves(a).apply_move(action),
    ) == #[trigger] phase_id(phase, from.apply_moves(b).apply_move(action)) by {
        lemma_exact_after_moves(phase, from, a);
        lemma_exact_after_moves(phase, from, b);
        lemma_same_id_after_move(phase, from.apply_moves(a), from.apply_moves(b), action);
    }
}

/// The answer of a phase reaches the goal of the phase: it leads to a cube
/// that has the phase id of the solved cube.
pub proof fn lemma_meeting_path_reaches_goal(phase: Phase, start: CubieState, path: Seq<Move>)
    requires
        search_is_exact(phase, start),
        is_meeting_path(phase, start, path),
    ensures
        phase_id(phase, start.apply_moves(path)) == phase_id(phase, CubieState::solved()),
{
    let (forward, backward) = choose|forward: Seq<Move>, backward: Seq<Move>| #[trigger]
        meets(phase, start, forward, backward) && path == forward + inverse_path(backward);
    let solved = CubieState::solved();
    lemma_solved_balanced();
    lemma_exact_after_moves(phase, start, forward);
    lemma_exact_after_moves(phase, solved, backward);
    lemma_same_id_after_moves(
        phase,
        start.apply_moves(forward),
        solved.apply_moves(backward),
        inverse_path(backward),
    );
    crate::cube_laws::lemma_apply_moves_concat(start, forward, inverse_path(backward));
    crate::cube_laws::lemma_path_then_inverse(solved, backward);
}

} // verus!
