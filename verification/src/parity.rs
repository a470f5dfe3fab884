//! The parity of the corners and of the edges: whether they, read slot by
//! slot, are an even or an odd permutation. A quarter turn changes both.

use vstd::prelude::*;

use crate::cubie_cube::CubieState;
use crate::moves::Position;
use crate::phase::{inversions, inversions_from, pochmann_corner, pochmann_cube, pochmann_edge};

verus! {

/// 1 if the first number is the greater, else 0.
#[verifier::opaque]
pub open spec fn gt(a: int, b: int) -> int {
    if a > b {
        1
    } else {
        0
    }
}

/// The number of pairs of places in a sequence of eight numbers that hold
/// their numbers in descending order.
pub open spec fn inv8(s: Seq<int>) -> int {
    gt(s[0], s[1]) + gt(s[0], s[2]) + gt(s[0], s[3]) + gt(s[0], s[4]) + gt(s[0], s[5]) + gt(
        s[0],
        s[6],
    ) + gt(s[0], s[7]) + gt(s[1], s[2]) + gt(s[1], s[3]) + gt(s[1], s[4]) + gt(s[1], s[5]) + gt(
        s[1],
        s[6],
    ) + gt(s[1], s[7]) + gt(s[2], s[3]) + gt(s[2], s[4]) + gt(s[2], s[5]) + gt(s[2], s[6]) + gt(
        s[2],
        s[7],
    ) + gt(s[3], s[4]) + gt(s[3], s[5]) + gt(s[3], s[6]) + gt(s[3], s[7]) + gt(s[4], s[5]) + gt(
        s[4],
        s[6],
    ) + gt(s[4], s[7]) + gt(s[5], s[6]) + gt(s[5], s[7]) + gt(s[6], s[7])
}

/// Of two different numbers exactly one is the greater.
pub proof fn lemma_gt(a: int, b: int)
    ensures
        0 <= gt(a, b) <= 1,
        a != b ==> gt(a, b) + gt(b, a) == 1,
        gt(a, b) == 1 <==> a > b,
{
    reveal(gt);
}

/// Of any two different places in a sequence without doubles, exactly one
/// holds the greater number.
proof fn lemma_gt_all(s: Seq<int>)
    requires
        s.len() == 8,
        s.no_duplicates(),
    ensures
        forall|a: int, b: int|
            0 <= a < 8 && 0 <= b < 8 && a != b ==> #[trigger] gt(s[a], s[b]) + gt(s[b], s[a]) == 1,
{
    assert forall|a: int, b: int| 0 <= a < 8 && 0 <= b < 8 && a != b implies #[trigger] gt(
        s[a],
        s[b],
    ) + gt(s[b], s[a]) == 1 by {
        lemma_gt(s[a], s[b]);
    }
}

/// The place from which a quarter turn of `face` fetches the corner for
/// place `k`, places counted as in the forty-number form.
pub open spec fn corner_fetch(face: Position, k: int) -> int {
    pochmann_corner(CubieState::base_move(face).cp[pochmann_corner(k)])
}

/// A quarter turn fetches the corners in an odd order: it changes whether
/// the number of descending pairs is even.
pub proof fn lemma_quarter_turn_is_odd(s: Seq<int>, t: Seq<int>, face: Position)
    requires
        s.len() == 8,
        t.len() == 8,
        s.no_duplicates(),
        forall|k: int| 0 <= k < 8 ==> #[trigger] t[k] == s[corner_fetch(face, k)],
    ensures
        (inv8(t) + inv8(s)) % 2 == 1,
{
    lemma_gt_all(s);
    match face {
        Position::Up => {
            assert(t[0] == s[1] && t[1] == s[2] && t[2] == s[3] && t[3] == s[0] && t[4] == s[4]
                && t[5] == s[5] && t[6] == s[6] && t[7] == s[7]);
        },
        Position::Down => {
            assert(t[0] == s[0] && t[1] == s[1] && t[2] == s[2] && t[3] == s[3] && t[4] == s[5]
                && t[5] == s[6] && t[6] == s[7] && t[7] == s[4]);
        },
        Position::Left => {
            assert(t[0] == s[0] && t[1] == s[1] && t[2] == s[6] && t[3] == s[2] && t[4] == s[4]
                && t[5] == s[3] && t[6] == s[5] && t[7] == s[7]);
        },
        Position::Right => {
            assert(t[0] == s[4] && t[1] == s[0] && t[2] == s[2] && t[3] == s[3] && t[4] == s[7]
                && t[5] == s[5] && t[6] == s[6] && t[7] == s[1]);
        },
        Position::Front => {
            assert(t[0] == s[3] && t[1] == s[1] && t[2] == s[2] && t[3] == s[5] && t[4] == s[0]
                && t[5] == s[4] && t[6] == s[6] && t[7] == s[7]);
        },
        Position::Back => {
            assert(t[0] == s[0] && t[1] == s[7] && t[2] == s[1] && t[3] == s[3] && t[4] == s[4]
                && t[5] == s[5] && t[6] == s[2] && t[7] == s[6]);
        },
    }
}

/// The corners of the forty-number form, as eight numbers.
pub open spec fn corners_of(pc: Seq<u32>) -> Seq<int> {
    Seq::new(8, |k: int| pc[12 + k] as int)
}

/// The number of descending pairs after place `i`, written out.
proof fn lemma_inversions_from(pc: Seq<u32>, i: int, j: int)
    requires
        12 <= i < j <= 20,
    ensures
        inversions_from(pc, i, j) == inversions_from(pc, i, j - 1) + gt(
            pc[i] as int,
            pc[j - 1] as int,
        ),
        inversions_from(pc, i, i + 1) == 0,
{
    lemma_gt(pc[i] as int, pc[j - 1] as int);
}

/// The number of descending pairs among the corners of the forty-number
/// form is that of its eight corner numbers.
pub proof fn lemma_inversions_is_inv8(pc: Seq<u32>)
    requires
        pc.len() == 40,
    ensures
        inversions(pc, 20) == inv8(corners_of(pc)),
{
    let s = corners_of(pc);
    assert(s[0] == pc[12] && s[1] == pc[13] && s[2] == pc[14] && s[3] == pc[15] && s[4]
        == pc[16] && s[5] == pc[17] && s[6] == pc[18] && s[7] == pc[19]);
    assert(inversions_from(pc, 12, 20) == gt(s[0], s[1]) + gt(s[0], s[2]) + gt(s[0], s[3]) + gt(
        s[0],
        s[4],
    ) + gt(s[0], s[5]) + gt(s[0], s[6]) + gt(s[0], s[7])) by {
        lemma_inversions_from(pc, 12, 20);
        lemma_inversions_from(pc, 12, 19);
        lemma_inversions_from(pc, 12, 18);
        lemma_inversions_from(pc, 12, 17);
        lemma_inversions_from(pc, 12, 16);
        lemma_inversions_from(pc, 12, 15);
        lemma_inversions_from(pc, 12, 14);
    }
    assert(inversions_from(pc, 13, 20) == gt(s[1], s[2]) + gt(s[1], s[3]) + gt(s[1], s[4]) + gt(
        s[1],
        s[5],
    ) + gt(s[1], s[6]) + gt(s[1], s[7])) by {
        lemma_inversions_from(pc, 13, 20);
        lemma_inversions_from(pc, 13, 19);
        lemma_inversions_from(pc, 13, 18);
        lemma_inversions_from(pc, 13, 17);
        lemma_inversions_from(pc, 13, 16);
        lemma_inversions_from(pc, 13, 15);
    }
    assert(inversions_from(pc, 14, 20) == gt(s[2], s[3]) + gt(s[2], s[4]) + gt(s[2], s[5]) + gt(
        s[2],
        s[6],
    ) + gt(s[2], s[7])) by {
        lemma_inversions_from(pc, 14, 20);
        lemma_inversions_from(pc, 14, 19);
        lemma_inversions_from(pc, 14, 18);
        lemma_inversions_from(pc, 14, 17);
        lemma_inversions_from(pc, 14, 16);
    }
    assert(inversions_from(pc, 15, 20) == gt(s[3], s[4]) + gt(s[3], s[5]) + gt(s[3], s[6]) + gt(
        s[3],
        s[7],
    )) by {
        lemma_inversions_from(pc, 15, 20);
        lemma_inversions_from(pc, 15, 19);
        lemma_inversions_from(pc, 15, 18);
        lemma_inversions_from(pc, 15, 17);
    }
    assert(inversions_from(pc, 16, 20) == gt(s[4], s[5]) + gt(s[4], s[6]) + gt(s[4], s[7])) by {
        lemma_inversions_from(pc, 16, 20);
        lemma_inversions_from(pc, 16, 19);
        lemma_inversions_from(pc, 16, 18);
    }
    assert(inversions_from(pc, 17, 20) == gt(s[5], s[6]) + gt(s[5], s[7])) by {
        lemma_inversions_from(pc, 17, 20);
        lemma_inversions_from(pc, 17, 19);
    }
    assert(inversions_from(pc, 18, 20) == gt(s[6], s[7])) by {
        lemma_inversions_from(pc, 18, 20);
    }
    assert(inversions_from(pc, 19, 20) == 0);
    assert(inversions(pc, 20) == inversions_from(pc, 12, 20) + inversions_from(pc, 13, 20)
        + inversions_from(pc, 14, 20) + inversions_from(pc, 15, 20) + inversions_from(pc, 16, 20)
        + inversions_from(pc, 17, 20) + inversions_from(pc, 18, 20) + inversions_from(
        pc,
        19,
        20,
    )) by {
        reveal_with_fuel(inversions, 10);
    }
}

/// The corner numbers of the forty-number form of a cube.
proof fn lemma_corner_numbers(cube: CubieState)
    requires
        cube.wf(),
    ensures
        corners_of(pochmann_cube(cube)).len() == 8,
        forall|k: int|
            0 <= k < 8 ==> #[trigger] corners_of(pochmann_cube(cube))[k] == 12 + pochmann_corner(
                cube.cp[pochmann_corner(k)],
            ),
{
    assert forall|k: int| 0 <= k < 8 implies #[trigger] corners_of(pochmann_cube(cube))[k] == 12
        + pochmann_corner(cube.cp[pochmann_corner(k)]) by {
        assert(0 <= cube.cp[pochmann_corner(k)] < 8);
        assert(pochmann_cube(cube)[12 + k] == (12 + pochmann_corner(
            cube.cp[pochmann_corner(12 + k - 12)],
        )) as u32);
    }
}

/// The corner numbers of a cube that has no corner twice are all
/// different.
proof fn lemma_corner_numbers_distinct(cube: CubieState)
    requires
        cube.wf(),
        cube.cp.no_duplicates(),
    ensures
        corners_of(pochmann_cube(cube)).no_duplicates(),
{
    let s = corners_of(pochmann_cube(cube));
    lemma_corner_numbers(cube);
    assert forall|a: int, b: int| 0 <= a < 8 && 0 <= b < 8 && a != b implies s[a] != s[b] by {
        let i = pochmann_corner(a);
        let j = pochmann_corner(b);
        assert(cube.cp[i] != cube.cp[j]);
        assert(0 <= cube.cp[i] < 8 && 0 <= cube.cp[j] < 8);
    }
}

/// The corner numbers after a quarter turn are those before it, fetched as
/// the turn says.
proof fn lemma_corner_numbers_fetched(cube: CubieState, face: Position)
    requires
        cube.wf(),
    ensures
        forall|k: int|
            0 <= k < 8 ==> #[trigger] corners_of(
                pochmann_cube(cube.multiply(CubieState::base_move(face))),
            )[k] == corners_of(pochmann_cube(cube))[corner_fetch(face, k)],
{
    let base = CubieState::base_move(face);
    let turned = cube.multiply(base);
    crate::cube_laws::lemma_base_move_wf(face);
    crate::cube_laws::lemma_multiply_wf(cube, base);
    lemma_corner_numbers(cube);
    lemma_corner_numbers(turned);
    let s = corners_of(pochmann_cube(cube));
    let t = corners_of(pochmann_cube(turned));
    assert forall|k: int| 0 <= k < 8 implies #[trigger] t[k] == s[corner_fetch(face, k)] by {
        let i = pochmann_corner(k);
        let from = base.cp[i];
        assert(0 <= from < 8);
        assert(turned.cp[i] == cube.cp[from]);
        assert(pochmann_corner(pochmann_corner(from)) == from);
        assert(corner_fetch(face, k) == pochmann_corner(from));
        assert(s[pochmann_corner(from)] == 12 + pochmann_corner(
            cube.cp[pochmann_corner(pochmann_corner(from))],
        ));
    }
}

/// A quarter turn changes the parity of the corners of a cube that has no
/// corner twice.
pub proof fn lemma_quarter_turn_changes_parity(cube: CubieState, face: Position)
    requires
        cube.wf(),
        cube.cp.no_duplicates(),
    ensures
        (inversions(pochmann_cube(cube.multiply(CubieState::base_move(face))), 20) + inversions(
            pochmann_cube(cube),
            20,
        )) % 2 == 1,
{
    let turned = cube.multiply(CubieState::base_move(face));
    let s = corners_of(pochmann_cube(cube));
    let t = corners_of(pochmann_cube(turned));
    lemma_inversions_is_inv8(pochmann_cube(cube));
    lemma_inversions_is_inv8(pochmann_cube(turned));
    lemma_corner_numbers_distinct(cube);
    lemma_corner_numbers_fetched(cube, face);
    lemma_quarter_turn_is_odd(s, t, face);
}

/// The number of pairs of places in a sequence of twelve numbers that hold
/// their numbers in descending order.
pub open spec fn inv12(s: Seq<int>) -> int {
    gt(s[0], s[1]) + gt(s[0], s[2]) + gt(s[0], s[3]) + gt(s[0], s[4]) + gt(s[0], s[5]) + gt(s[0], s[6]) + gt(s[0], s[7]) + gt(s[0], s[8]) + gt(s[0], s[9]) + gt(s[0], s[10]) + gt(s[0], s[11])
        + gt(s[1], s[2]) + gt(s[1], s[3]) + gt(s[1], s[4]) + gt(s[1], s[5]) + gt(s[1], s[6]) + gt(s[1], s[7]) + gt(s[1], s[8]) + gt(s[1], s[9]) + gt(s[1], s[10]) + gt(s[1], s[11])
        + gt(s[2], s[3]) + gt(s[2], s[4]) + gt(s[2], s[5]) + gt(s[2], s[6]) + gt(s[2], s[7]) + gt(s[2], s[8]) + gt(s[2], s[9]) + gt(s[2], s[10]) + gt(s[2], s[11])
        + gt(s[3], s[4]) + gt(s[3], s[5]) + gt(s[3], s[6]) + gt(s[3], s[7]) + gt(s[3], s[8]) + gt(s[3], s[9]) + gt(s[3], s[10]) + gt(s[3], s[11])
        + gt(s[4], s[5]) + gt(s[4], s[6]) + gt(s[4], s[7]) + gt(s[4], s[8]) + gt(s[4], s[9]) + gt(s[4], s[10]) + gt(s[4], s[11])
        + gt(s[5], s[6]) + gt(s[5], s[7]) + gt(s[5], s[8]) + gt(s[5], s[9]) + gt(s[5], s[10]) + gt(s[5], s[11])
        + gt(s[6], s[7]) + gt(s[6], s[8]) + gt(s[6], s[9]) + gt(s[6], s[10]) + gt(s[6], s[11])
        + gt(s[7], s[8]) + gt(s[7], s[9]) + gt(s[7], s[10]) + gt(s[7], s[11])
        + gt(s[8], s[9]) + gt(s[8], s[10]) + gt(s[8], s[11])
        + gt(s[9], s[10]) + gt(s[9], s[11])
        + gt(s[10], s[11])
}

/// Of any two different places in a sequence of twelve numbers without
/// doubles, exactly one holds the greater number.
proof fn lemma_gt_all12(s: Seq<int>)
    requires
        s.len() == 12,
        s.no_duplicates(),
    ensures
        forall|a: int, b: int|
            0 <= a < 12 && 0 <= b < 12 && a != b ==> #[trigger] gt(s[a], s[b]) + gt(s[b], s[a])
                == 1,
{
    assert forall|a: int, b: int| 0 <= a < 12 && 0 <= b < 12 && a != b implies #[trigger] gt(
        s[a],
        s[b],
    ) + gt(s[b], s[a]) == 1 by {
        lemma_gt(s[a], s[b]);
    }
}

/// The place from which a quarter turn of `face` fetches the edge for
/// place `k`, places counted as in the forty-number form.
pub open spec fn edge_fetch(face: Position, k: int) -> int {
    pochmann_edge(CubieState::base_move(face).ep[pochmann_edge(k)])
}

/// A quarter turn fetches the edges in an odd order.
pub proof fn lemma_quarter_turn_is_odd_on_edges(s: Seq<int>, t: Seq<int>, face: Position)
    requires
        s.len() == 12,
        t.len() == 12,
        s.no_duplicates(),
        forall|k: int| 0 <= k < 12 ==> #[trigger] t[k] == s[edge_fetch(face, k)],
    ensures
        (inv12(t) + inv12(s)) % 2 == 1,
{
    lemma_gt_all12(s);
    match face {
        Position::Up => {
            assert(t[0] == s[1] && t[1] == s[2] && t[2] == s[3] && t[3] == s[0] && t[4] == s[4] && t[5] == s[5] && t[6] == s[6] && t[7] == s[7] && t[8] == s[8] && t[9] == s[9] && t[10] == s[10] && t[11] == s[11]);
        },
        Position::Down => {
            assert(t[0] == s[0] && t[1] == s[1] && t[2] == s[2] && t[3] == s[3] && t[4] == s[7] && t[5] == s[4] && t[6] == s[5] && t[7] == s[6] && t[8] == s[8] && t[9] == s[9] && t[10] == s[10] && t[11] == s[11]);
        },
        Position::Left => {
            assert(t[0] == s[0] && t[1] == s[1] && t[2] == s[2] && t[3] == s[11] && t[4] == s[4] && t[5] == s[5] && t[6] == s[6] && t[7] == s[9] && t[8] == s[8] && t[9] == s[3] && t[10] == s[10] && t[11] == s[7]);
        },
        Position::Right => {
            assert(t[0] == s[0] && t[1] == s[8] && t[2] == s[2] && t[3] == s[3] && t[4] == s[4] && t[5] == s[10] && t[6] == s[6] && t[7] == s[7] && t[8] == s[5] && t[9] == s[9] && t[10] == s[1] && t[11] == s[11]);
        },
        Position::Front => {
            assert(t[0] == s[9] && t[1] == s[1] && t[2] == s[2] && t[3] == s[3] && t[4] == s[8] && t[5] == s[5] && t[6] == s[6] && t[7] == s[7] && t[8] == s[0] && t[9] == s[4] && t[10] == s[10] && t[11] == s[11]);
        },
        Position::Back => {
            assert(t[0] == s[0] && t[1] == s[1] && t[2] == s[10] && t[3] == s[3] && t[4] == s[4] && t[5] == s[5] && t[6] == s[11] && t[7] == s[7] && t[8] == s[8] && t[9] == s[9] && t[10] == s[6] && t[11] == s[2]);
        },
    }
}

/// The edges of the forty-number form, as twelve numbers.
pub open spec fn edges_of(pc: Seq<u32>) -> Seq<int> {
    Seq::new(12, |k: int| pc[k] as int)
}

/// The edge numbers of the forty-number form of a cube.
proof fn lemma_edge_numbers(cube: CubieState)
    requires
        cube.wf(),
    ensures
        edges_of(pochmann_cube(cube)).len() == 12,
        forall|k: int|
            0 <= k < 12 ==> #[trigger] edges_of(pochmann_cube(cube))[k] == pochmann_edge(
                cube.ep[pochmann_edge(k)],
            ),
{
    assert forall|k: int| 0 <= k < 12 implies #[trigger] edges_of(pochmann_cube(cube))[k]
        == pochmann_edge(cube.ep[pochmann_edge(k)]) by {
        assert(0 <= cube.ep[pochmann_edge(k)] < 12);
    }
}

/// The edge numbers of a cube that has no edge twice are all different.
proof fn lemma_edge_numbers_distinct(cube: CubieState)
    requires
        cube.wf(),
        cube.ep.no_duplicates(),
    ensures
        edges_of(pochmann_cube(cube)).no_duplicates(),
{
    let s = edges_of(pochmann_cube(cube));
    lemma_edge_numbers(cube);
    assert forall|a: int, b: int| 0 <= a < 12 && 0 <= b < 12 && a != b implies s[a] != s[b] by {
        let i = pochmann_edge(a);
        let j = pochmann_edge(b);
        assert(cube.ep[i] != cube.ep[j]);
        assert(0 <= cube.ep[i] < 12 && 0 <= cube.ep[j] < 12);
    }
}

/// The edge numbers after a quarter turn are those before it, fetched as
/// the turn says.
proof fn lemma_edge_numbers_fetched(cube: CubieState, face: Position)
    requires
        cube.wf(),
    ensures
        forall|k: int|
            0 <= k < 12 ==> #[trigger] edges_of(
                pochmann_cube(cube.multiply(CubieState::base_move(face))),
            )[k] == edges_of(pochmann_cube(cube))[edge_fetch(face, k)],
{
    let base = CubieState::base_move(face);
    let turned = cube.multiply(base);
    crate::cube_laws::lemma_base_move_wf(face);
    crate::cube_laws::lemma_multiply_wf(cube, base);
    lemma_edge_numbers(cube);
    lemma_edge_numbers(turned);
    let s = edges_of(pochmann_cube(cube));
    let t = edges_of(pochmann_cube(turned));
    assert forall|k: int| 0 <= k < 12 implies #[trigger] t[k] == s[edge_fetch(face, k)] by {
        let i = pochmann_edge(k);
        let from = base.ep[i];
        assert(0 <= from < 12);
        assert(turned.ep[i] == cube.ep[from]);
        assert(pochmann_edge(pochmann_edge(from)) == from);
        assert(edge_fetch(face, k) == pochmann_edge(from));
        assert(s[pochmann_edge(from)] == pochmann_edge(
            cube.ep[pochmann_edge(pochmann_edge(from))],
        ));
    }
}

impl CubieState {
    /// Whether the corners are an odd permutation: 1 if they are, else 0.
    /// The corners are read in the order of the forty-number form.
    pub open spec fn corner_parity(self) -> int {
        inv8(corners_of(pochmann_cube(self))) % 2
    }

    /// Whether the edges are an odd permutation: 1 if they are, else 0.
    /// The edges are read in the order of the forty-number form.
    pub open spec fn edge_parity(self) -> int {
        inv12(edges_of(pochmann_cube(self))) % 2
    }
}

/// A quarter turn changes the parity of the corners and the parity of the
/// edges of a cube that has no cubie twice.
pub proof fn lemma_quarter_turn_changes_parities(cube: CubieState, face: Position)
    requires
        cube.wf(),
        cube.cp.no_duplicates(),
        cube.ep.no_duplicates(),
    ensures
        cube.multiply(CubieState::base_move(face)).corner_parity() == 1 - cube.corner_parity(),
        cube.multiply(CubieState::base_move(face)).edge_parity() == 1 - cube.edge_parity(),
{
    let turned = cube.multiply(CubieState::base_move(face));
    lemma_corner_numbers_distinct(cube);
    lemma_corner_numbers_fetched(cube, face);
    lemma_quarter_turn_is_odd(
        corners_of(pochmann_cube(cube)),
        corners_of(pochmann_cube(turned)),
        face,
    );
    lemma_edge_numbers_distinct(cube);
    lemma_edge_numbers_fetched(cube, face);
    lemma_quarter_turn_is_odd_on_edges(
        edges_of(pochmann_cube(cube)),
        edges_of(pochmann_cube(turned)),
        face,
    );
}

/// The solved cube has its corners and its edges in ascending order.
pub proof fn lemma_solved_parities()
    ensures
        CubieState::solved().corner_parity() == 0,
        CubieState::solved().edge_parity() == 0,
{
    reveal(gt);
    let pc = pochmann_cube(CubieState::solved());
    let c = corners_of(pc);
    let e = edges_of(pc);
    assert(c[0] == 12 && c[1] == 13 && c[2] == 14 && c[3] == 15 && c[4] == 16 && c[5] == 17
        && c[6] == 18 && c[7] == 19);
    assert(e[0] == 0 && e[1] == 1 && e[2] == 2 && e[3] == 3 && e[4] == 4 && e[5] == 5 && e[6]
        == 6 && e[7] == 7 && e[8] == 8 && e[9] == 9 && e[10] == 10 && e[11] == 11);
}

} // verus!
