//! What every cube has that moves make of the solved cube: no cubie is
//! there twice, the twists add up to a multiple of three, the flips to a
//! multiple of two, and the corners are an odd permutation exactly if the
//! edges are. Moves keep all of this.

use vstd::prelude::*;

use crate::cube_laws::lemma_multiply_wf;
use crate::cubie_cube::CubieState;
use crate::moves::{Move, Position};
use crate::parity::{lemma_quarter_turn_changes_parities, lemma_solved_parities};

verus! {

/// 1 if an edge belongs to the middle slice between Up and Down, else 0.
pub open spec fn middle(edge: int) -> int {
    if edge >= 8 {
        1
    } else {
        0
    }
}

impl CubieState {
    /// The sum of the corner twists.
    #[verifier::opaque]
    pub open spec fn twist_total(self) -> int {
        self.co[0] + self.co[1] + self.co[2] + self.co[3] + self.co[4] + self.co[5] + self.co[6]
            + self.co[7]
    }

    /// The sum of the edge flips.
    #[verifier::opaque]
    pub open spec fn flip_total(self) -> int {
        self.eo[0] + self.eo[1] + self.eo[2] + self.eo[3] + self.eo[4] + self.eo[5] + self.eo[6]
            + self.eo[7] + self.eo[8] + self.eo[9] + self.eo[10] + self.eo[11]
    }

    /// The number of edge slots that hold an edge of the middle slice.
    #[verifier::opaque]
    pub open spec fn middle_count(self) -> int {
        middle(self.ep[0]) + middle(self.ep[1]) + middle(self.ep[2]) + middle(self.ep[3])
            + middle(self.ep[4]) + middle(self.ep[5]) + middle(self.ep[6]) + middle(self.ep[7])
            + middle(self.ep[8]) + middle(self.ep[9]) + middle(self.ep[10]) + middle(
            self.ep[11],
        )
    }

    /// No corner and no edge is in two slots.
    pub open spec fn bijective(self) -> bool {
        &&& self.cp.no_duplicates()
        &&& self.ep.no_duplicates()
    }

    /// No cubie is there twice, no corner is mirrored, the twists add up to
    /// a multiple of three and the flips to a multiple of two. (That four
    /// slots hold the edges of the middle slice follows from no edge being
    /// there twice; it is listed because the search leans on it.)
    pub open spec fn balanced(self) -> bool {
        &&& self.wf()
        &&& self.unmirrored()
        &&& self.bijective()
        &&& self.twist_total() % 3 == 0
        &&& self.flip_total() % 2 == 0
        &&& self.middle_count() == 4
    }

    /// The cube is balanced, and its corners are an odd permutation exactly
    /// if its edges are. Moves make no other cubes of the solved cube.
    pub open spec fn physical(self) -> bool {
        &&& self.balanced()
        &&& self.corner_parity() == self.edge_parity()
    }
}

/// The product of two cubes without doubled cubies has no doubled cubies.
pub proof fn lemma_multiply_bijective(a: CubieState, b: CubieState)
    requires
        a.wf(),
        b.wf(),
        a.bijective(),
        b.bijective(),
    ensures
        a.multiply(b).bijective(),
{
    let p = a.multiply(b);
    assert forall|i: int, j: int| 0 <= i < 8 && 0 <= j < 8 && i != j implies p.cp[i]
        != p.cp[j] by {
        assert(b.cp[i] != b.cp[j]);
        assert(a.cp[b.cp[i]] != a.cp[b.cp[j]]);
    }
    assert forall|i: int, j: int| 0 <= i < 12 && 0 <= j < 12 && i != j implies p.ep[i]
        != p.ep[j] by {
        assert(b.ep[i] != b.ep[j]);
        assert(a.ep[b.ep[i]] != a.ep[b.ep[j]]);
    }
}

/// The sum of eight numbers.
pub open spec fn sum8(s: Seq<int>) -> int {
    s[0] + s[1] + s[2] + s[3] + s[4] + s[5] + s[6] + s[7]
}

/// The sum of twelve numbers.
pub open spec fn sum12(s: Seq<int>) -> int {
    s[0] + s[1] + s[2] + s[3] + s[4] + s[5] + s[6] + s[7] + s[8] + s[9] + s[10] + s[11]
}

/// The numbers of `s` in the order in which `from` fetches them.
pub open spec fn fetched(s: Seq<int>, from: Seq<int>) -> Seq<int> {
    Seq::new(from.len(), |i: int| s[from[i]])
}

/// Fetching eight numbers by `from` does not change their sum.
#[verifier::opaque]
pub open spec fn keeps_sum8(from: Seq<int>) -> bool {
    forall|s: Seq<int>| sum8(#[trigger] fetched(s, from)) == sum8(s)
}

/// Fetching twelve numbers by `from` does not change their sum.
#[verifier::opaque]
pub open spec fn keeps_sum12(from: Seq<int>) -> bool {
    forall|s: Seq<int>| sum12(#[trigger] fetched(s, from)) == sum12(s)
}

/// The base cubes fetch every cubie once: sums over the slots are the same
/// before and after.
pub proof fn lemma_base_move_fetches(face: Position)
    ensures
        keeps_sum8(CubieState::base_move(face).cp),
        keeps_sum12(CubieState::base_move(face).ep),
{
    reveal(keeps_sum8);
    reveal(keeps_sum12);
    let base = CubieState::base_move(face);
    assert(base.cp.len() == 8 && base.ep.len() == 12);
    assert forall|s: Seq<int>| sum8(#[trigger] fetched(s, base.cp)) == sum8(s) by {
        let t = fetched(s, base.cp);
        assert(t[0] == s[base.cp[0]] && t[1] == s[base.cp[1]] && t[2] == s[base.cp[2]] && t[3]
            == s[base.cp[3]] && t[4] == s[base.cp[4]] && t[5] == s[base.cp[5]] && t[6]
            == s[base.cp[6]] && t[7] == s[base.cp[7]]);
    }
    assert forall|s: Seq<int>| sum12(#[trigger] fetched(s, base.ep)) == sum12(s) by {
        let t = fetched(s, base.ep);
        assert(t[0] == s[base.ep[0]] && t[1] == s[base.ep[1]] && t[2] == s[base.ep[2]] && t[3]
            == s[base.ep[3]] && t[4] == s[base.ep[4]] && t[5] == s[base.ep[5]] && t[6]
            == s[base.ep[6]] && t[7] == s[base.ep[7]] && t[8] == s[base.ep[8]] && t[9]
            == s[base.ep[9]] && t[10] == s[base.ep[10]] && t[11] == s[base.ep[11]]);
    }
}

/// The base cubes have no doubled cubies, and their twists and flips add
/// up to multiples of three and two.
pub proof fn lemma_base_move_balanced(face: Position)
    ensures
        CubieState::base_move(face).wf(),
        CubieState::base_move(face).unmirrored(),
        CubieState::base_move(face).bijective(),
        CubieState::base_move(face).twist_total() % 3 == 0,
        CubieState::base_move(face).flip_total() % 2 == 0,
{
    reveal(CubieState::twist_total);
    reveal(CubieState::flip_total);
}

/// What fetching by `from` does to the sum of eight numbers: nothing.
proof fn lemma_sum8_kept(s: Seq<int>, from: Seq<int>)
    requires
        keeps_sum8(from),
    ensures
        sum8(fetched(s, from)) == sum8(s),
{
    reveal(keeps_sum8);
}

/// What fetching by `from` does to the sum of twelve numbers: nothing.
proof fn lemma_sum12_kept(s: Seq<int>, from: Seq<int>)
    requires
        keeps_sum12(from),
    ensures
        sum12(fetched(s, from)) == sum12(s),
{
    reveal(keeps_sum12);
}

/// The twist in slot `i` of a product of unmirrored cubes is the sum of
/// the twists that meet there, less three if that is three or more.
proof fn lemma_twist_adds(a: CubieState, b: CubieState, i: int) -> (carry: int)
    requires
        a.wf(),
        b.wf(),
        a.unmirrored(),
        b.unmirrored(),
        0 <= i < 8,
    ensures
        0 <= carry <= 1,
        a.multiply(b).co[i] == fetched(a.co, b.cp)[i] + b.co[i] - 3 * carry,
{
    let x = a.co[b.cp[i]];
    let y = b.co[i];
    assert(0 <= b.cp[i] < 8);
    assert(0 <= x < 3 && 0 <= y < 3);
    if x + y >= 3 {
        1
    } else {
        0
    }
}

/// The flip in slot `i` of a product is the sum of the flips that meet
/// there, less two if that is two.
proof fn lemma_flip_adds(a: CubieState, b: CubieState, i: int) -> (carry: int)
    requires
        a.wf(),
        b.wf(),
        0 <= i < 12,
    ensures
        0 <= carry <= 1,
        a.multiply(b).eo[i] == fetched(a.eo, b.ep)[i] + b.eo[i] - 2 * carry,
{
    let x = a.eo[b.ep[i]];
    let y = b.eo[i];
    assert(0 <= b.ep[i] < 12);
    assert(0 <= x < 2 && 0 <= y < 2);
    if x + y >= 2 {
        1
    } else {
        0
    }
}

/// A number that differs from a sum by a multiple of `m` has the same
/// remainder as the sum.
proof fn lemma_same_remainder(total: int, sum: int, carried: int, m: int)
    requires
        m == 2 || m == 3,
        total == sum - m * carried,
    ensures
        total % m == sum % m,
{
    if m == 2 {
        assert((sum - 2 * carried) % 2 == sum % 2);
    } else {
        assert((sum - 3 * carried) % 3 == sum % 3);
    }
}

/// A number that has the remainder of a sum of two multiples of `m` is a
/// multiple of `m`.
proof fn lemma_multiples_add(total: int, x: int, y: int, m: int)
    requires
        m == 2 || m == 3,
        total % m == (x + y) % m,
        x % m == 0,
        y % m == 0,
    ensures
        total % m == 0,
{
    if m == 2 {
        assert((x + y) % 2 == 0);
    } else {
        assert((x + y) % 3 == 0);
    }
}

/// The twists of a product of unmirrored cubes add up to the twists of the
/// factors, modulo three, if the second factor fetches every corner once.
pub proof fn lemma_multiply_twist_total(a: CubieState, b: CubieState)
    requires
        a.wf(),
        b.wf(),
        a.unmirrored(),
        b.unmirrored(),
        keeps_sum8(b.cp),
    ensures
        a.multiply(b).twist_total() % 3 == (a.twist_total() + b.twist_total()) % 3,
{
    reveal(CubieState::twist_total);
    let p = a.multiply(b);
    let t = fetched(a.co, b.cp);
    lemma_sum8_kept(a.co, b.cp);
    let k0 = lemma_twist_adds(a, b, 0);
    let k1 = lemma_twist_adds(a, b, 1);
    let k2 = lemma_twist_adds(a, b, 2);
    let k3 = lemma_twist_adds(a, b, 3);
    let k4 = lemma_twist_adds(a, b, 4);
    let k5 = lemma_twist_adds(a, b, 5);
    let k6 = lemma_twist_adds(a, b, 6);
    let k7 = lemma_twist_adds(a, b, 7);
    let carried = k0 + k1 + k2 + k3 + k4 + k5 + k6 + k7;
    assert(p.twist_total() == sum8(t) + b.twist_total() - 3 * carried);
    lemma_same_remainder(p.twist_total(), a.twist_total() + b.twist_total(), carried, 3);
}

/// The flips of a product add up to the flips of the factors, modulo two,
/// if the second factor fetches every edge once.
pub proof fn lemma_multiply_flip_total(a: CubieState, b: CubieState)
    requires
        a.wf(),
        b.wf(),
        keeps_sum12(b.ep),
    ensures
        a.multiply(b).flip_total() % 2 == (a.flip_total() + b.flip_total()) % 2,
{
    reveal(CubieState::flip_total);
    let p = a.multiply(b);
    let t = fetched(a.eo, b.ep);
    lemma_sum12_kept(a.eo, b.ep);
    let k0 = lemma_flip_adds(a, b, 0);
    let k1 = lemma_flip_adds(a, b, 1);
    let k2 = lemma_flip_adds(a, b, 2);
    let k3 = lemma_flip_adds(a, b, 3);
    let k4 = lemma_flip_adds(a, b, 4);
    let k5 = lemma_flip_adds(a, b, 5);
    let k6 = lemma_flip_adds(a, b, 6);
    let k7 = lemma_flip_adds(a, b, 7);
    let k8 = lemma_flip_adds(a, b, 8);
    let k9 = lemma_flip_adds(a, b, 9);
    let k10 = lemma_flip_adds(a, b, 10);
    let k11 = lemma_flip_adds(a, b, 11);
    let carried = k0 + k1 + k2 + k3 + k4 + k5 + k6 + k7 + k8 + k9 + k10 + k11;
    assert(p.flip_total() == sum12(t) + b.flip_total() - 2 * carried);
    lemma_same_remainder(p.flip_total(), a.flip_total() + b.flip_total(), carried, 2);
}

/// A product has as many middle-slice edges in its slots as its first
/// factor, if the second factor fetches every edge once.
pub proof fn lemma_multiply_middle_count(a: CubieState, b: CubieState)
    requires
        a.wf(),
        b.wf(),
        keeps_sum12(b.ep),
    ensures
        a.multiply(b).middle_count() == a.middle_count(),
{
    reveal(CubieState::middle_count);
    let p = a.multiply(b);
    let marks = Seq::new(12, |i: int| middle(a.ep[i]));
    let t = fetched(marks, b.ep);
    lemma_sum12_kept(marks, b.ep);
    assert forall|i: int| 0 <= i < 12 implies #[trigger] t[i] == middle(p.ep[i]) by {
        assert(0 <= b.ep[i] < 12);
    }
    assert(p.middle_count() == sum12(t));
    assert(a.middle_count() == sum12(marks));
}

/// A move makes a balanced cube of a balanced cube.
pub proof fn lemma_move_keeps_balanced(cube: CubieState, action: Move)
    requires
        cube.balanced(),
    ensures
        cube.apply_move(action).balanced(),
{
    let base = CubieState::base_move(action.0);
    lemma_quarter_turn_keeps_balanced(cube, action.0);
    let once = cube.multiply(base);
    lemma_quarter_turn_keeps_balanced(once, action.0);
    let twice = once.multiply(base);
    lemma_quarter_turn_keeps_balanced(twice, action.0);
}

/// A quarter turn keeps the twists a multiple of three.
proof fn lemma_quarter_turn_twists(cube: CubieState, face: Position)
    requires
        cube.wf(),
        cube.unmirrored(),
        cube.twist_total() % 3 == 0,
    ensures
        cube.multiply(CubieState::base_move(face)).twist_total() % 3 == 0,
{
    let base = CubieState::base_move(face);
    lemma_base_move_balanced(face);
    lemma_base_move_fetches(face);
    lemma_multiply_twist_total(cube, base);
    lemma_multiples_add(
        cube.multiply(base).twist_total(),
        cube.twist_total(),
        base.twist_total(),
        3,
    );
}

/// A quarter turn keeps the flips a multiple of two.
proof fn lemma_quarter_turn_flips(cube: CubieState, face: Position)
    requires
        cube.wf(),
        cube.flip_total() % 2 == 0,
    ensures
        cube.multiply(CubieState::base_move(face)).flip_total() % 2 == 0,
{
    let base = CubieState::base_move(face);
    lemma_base_move_balanced(face);
    lemma_base_move_fetches(face);
    lemma_multiply_flip_total(cube, base);
    lemma_multiples_add(cube.multiply(base).flip_total(), cube.flip_total(), base.flip_total(), 2);
}

/// A quarter turn keeps the number of middle-slice edges in the slots.
proof fn lemma_quarter_turn_middle(cube: CubieState, face: Position)
    requires
        cube.wf(),
    ensures
        cube.multiply(CubieState::base_move(face)).middle_count() == cube.middle_count(),
{
    lemma_base_move_balanced(face);
    lemma_base_move_fetches(face);
    lemma_multiply_middle_count(cube, CubieState::base_move(face));
}

/// A quarter turn leaves no cubie doubled.
proof fn lemma_quarter_turn_bijective(cube: CubieState, face: Position)
    requires
        cube.wf(),
        cube.bijective(),
    ensures
        cube.multiply(CubieState::base_move(face)).wf(),
        cube.multiply(CubieState::base_move(face)).bijective(),
        cube.unmirrored() ==> cube.multiply(CubieState::base_move(face)).unmirrored(),
{
    lemma_base_move_balanced(face);
    lemma_multiply_wf(cube, CubieState::base_move(face));
    lemma_multiply_bijective(cube, CubieState::base_move(face));
}

/// A quarter turn makes a balanced cube of a balanced cube.
pub proof fn lemma_quarter_turn_keeps_balanced(cube: CubieState, face: Position)
    requires
        cube.balanced(),
    ensures
        cube.multiply(CubieState::base_move(face)).balanced(),
{
    lemma_quarter_turn_bijective(cube, face);
    lemma_quarter_turn_twists(cube, face);
    lemma_quarter_turn_flips(cube, face);
    lemma_quarter_turn_middle(cube, face);
}

/// The solved cube is balanced.
pub proof fn lemma_solved_balanced()
    ensures
        CubieState::solved().balanced(),
{
    reveal(CubieState::twist_total);
    reveal(CubieState::flip_total);
    reveal(CubieState::middle_count);
}

/// Moves make a balanced cube of a balanced cube; so every cube that moves
/// make of the solved cube is balanced.
pub proof fn lemma_moves_keep_balanced(cube: CubieState, actions: Seq<Move>)
    requires
        cube.balanced(),
    ensures
        cube.apply_moves(actions).balanced(),
    decreases actions.len(),
{
    if actions.len() > 0 {
        lemma_moves_keep_balanced(cube, actions.drop_last());
        lemma_move_keeps_balanced(cube.apply_moves(actions.drop_last()), actions.last());
    }
}

/// A move leaves no cubie doubled.
pub proof fn lemma_move_keeps_bijective(cube: CubieState, action: Move)
    requires
        cube.wf(),
        cube.bijective(),
    ensures
        cube.apply_move(action).wf(),
        cube.apply_move(action).bijective(),
{
    let base = CubieState::base_move(action.0);
    lemma_quarter_turn_bijective(cube, action.0);
    lemma_quarter_turn_bijective(cube.multiply(base), action.0);
    lemma_quarter_turn_bijective(cube.multiply(base).multiply(base), action.0);
}

/// Moves leave no cubie doubled.
pub proof fn lemma_moves_keep_bijective(cube: CubieState, actions: Seq<Move>)
    requires
        cube.wf(),
        cube.bijective(),
    ensures
        cube.apply_moves(actions).wf(),
        cube.apply_moves(actions).bijective(),
    decreases actions.len(),
{
    if actions.len() > 0 {
        lemma_moves_keep_bijective(cube, actions.drop_last());
        lemma_move_keeps_bijective(cube.apply_moves(actions.drop_last()), actions.last());
    }
}

/// A quarter turn makes a physical cube of a physical cube.
pub proof fn lemma_quarter_turn_keeps_physical(cube: CubieState, face: Position)
    requires
        cube.physical(),
    ensures
        cube.multiply(CubieState::base_move(face)).physical(),
{
    lemma_quarter_turn_keeps_balanced(cube, face);
    lemma_quarter_turn_changes_parities(cube, face);
}

/// A move makes a physical cube of a physical cube.
pub proof fn lemma_move_keeps_physical(cube: CubieState, action: Move)
    requires
        cube.physical(),
    ensures
        cube.apply_move(action).physical(),
{
    let base = CubieState::base_move(action.0);
    lemma_quarter_turn_keeps_physical(cube, action.0);
    lemma_quarter_turn_keeps_physical(cube.multiply(base), action.0);
    lemma_quarter_turn_keeps_physical(cube.multiply(base).multiply(base), action.0);
}

/// Moves make a physical cube of a physical cube.
pub proof fn lemma_moves_keep_physical(cube: CubieState, actions: Seq<Move>)
    requires
        cube.physical(),
    ensures
        cube.apply_moves(actions).physical(),
    decreases actions.len(),
{
    if actions.len() > 0 {
        lemma_moves_keep_physical(cube, actions.drop_last());
        lemma_move_keeps_physical(cube.apply_moves(actions.drop_last()), actions.last());
    }
}

/// Every cube that moves make of the solved cube is physical.
pub proof fn lemma_reachable_is_physical(actions: Seq<Move>)
    ensures
        CubieState::solved().apply_moves(actions).physical(),
{
    lemma_solved_balanced();
    lemma_solved_parities();
    lemma_moves_keep_physical(CubieState::solved(), actions);
}

} // verus!
