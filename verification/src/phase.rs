//! The four phases of the search: the moves that each permits, and the
//! reduced id that each gives a cube. A phase's id forgets everything about
//! the cube that the phase does not have to put right.

use vstd::prelude::*;

use crate::cubie_cube::{Corner, CubieCube, CubieState, Edge};
use crate::moves::{Direction, Move, Position};

verus! {

/// The cube written out as forty numbers: for each of the twelve edge slots
/// the edge in it, for each of the eight corner slots the corner in it
/// (counted from 12), then the twelve edge flips and the eight corner twists.
/// Slots and cubies are numbered in the order UF UR UB UL DF DR DB DL FR FL
/// BR BL for edges and URF UBR ULB UFL DFR DLF DBL DRB for corners.
pub type PochmannCube = [u32; 40];

/// One of the four stages in which the cube is solved.
#[derive(Debug, Copy, Clone, Hash, PartialEq, Eq, Structural)]
pub enum Phase {
    One,
    Two,
    Three,
    Four,
}

/// The number that an edge has in the forty-number form, given its home
/// slot; also the home slot of the edge with a given number, since the
/// renumbering is its own inverse.
pub open spec fn pochmann_edge(slot: int) -> int {
    if slot == 0 {
        1
    } else if slot == 1 {
        0
    } else if slot == 2 {
        3
    } else if slot == 3 {
        2
    } else if slot == 4 {
        5
    } else if slot == 5 {
        4
    } else if slot == 6 {
        7
    } else if slot == 7 {
        6
    } else if slot == 10 {
        11
    } else if slot == 11 {
        10
    } else {
        slot
    }
}

/// The place that a corner has among the corners of the forty-number form,
/// given its home slot; also the home slot of the corner at a given place.
pub open spec fn pochmann_corner(slot: int) -> int {
    if slot == 1 {
        3
    } else if slot == 3 {
        1
    } else {
        slot
    }
}

/// The forty-number form of a cube.
pub open spec fn pochmann_cube(cube: CubieState) -> Seq<u32> {
    Seq::new(
        40,
        |k: int|
            if k < 12 {
                pochmann_edge(cube.ep[pochmann_edge(k)]) as u32
            } else if k < 20 {
                (12 + pochmann_corner(cube.cp[pochmann_corner(k - 12)])) as u32
            } else if k < 32 {
                cube.eo[pochmann_edge(k - 20)] as u32
            } else {
                cube.co[pochmann_corner(k - 32)] as u32
            },
    )
}

/// The first `n` edge slots' middle-slice bits, laid over `start`: bit `i`
/// is set if slot `i` holds one of the four edges numbered 8 and above.
pub open spec fn slice_mask(pc: Seq<u32>, start: u32, n: nat) -> u32
    decreases n,
{
    if n == 0 {
        start
    } else {
        slice_mask(pc, start, (n - 1) as nat) | (((pc[n - 1] / 8) as u32) << ((n - 1) as u32))
    }
}

/// The class of an edge in phase three: 2 for an edge of the middle slice,
/// else the lowest bit of its number.
pub open spec fn edge_class(edge: u32) -> u32 {
    if edge > 7 {
        2
    } else {
        edge & 1
    }
}

/// The classes of the edges in the first `n` slots, two bits per slot.
pub open spec fn edge_classes(pc: Seq<u32>, n: nat) -> u32
    decreases n,
{
    if n == 0 {
        0
    } else {
        edge_classes(pc, (n - 1) as nat) | (edge_class(pc[n - 1]) << ((2 * (n - 1)) as u32))
    }
}

/// The class of a corner in phase three, from its number counted from 12.
pub open spec fn corner_class(corner: u32) -> u32 {
    ((corner - 12) as u32) & 5
}

/// The classes of the corners in the first `n` slots, three bits per slot.
pub open spec fn corner_classes(pc: Seq<u32>, n: nat) -> u32
    decreases n,
{
    if n == 0 {
        0
    } else {
        corner_classes(pc, (n - 1) as nat) | (corner_class(pc[12 + n - 1]) << ((3 * (n - 1))
            as u32))
    }
}

/// The number of corner slots after `i` and before `j` that hold a corner
/// with a smaller number than slot `i` does.
pub open spec fn inversions_from(pc: Seq<u32>, i: int, j: int) -> nat
    decreases j - i,
{
    if j <= i + 1 {
        0
    } else {
        inversions_from(pc, i, j - 1) + if pc[i] > pc[j - 1] {
            1nat
        } else {
            0nat
        }
    }
}

/// The number of pairs of corner slots, the first before `i`, that hold
/// their two corners in descending order.
pub open spec fn inversions(pc: Seq<u32>, i: int) -> nat
    decreases i - 12,
{
    if i <= 12 {
        0
    } else {
        inversions(pc, i - 1) + inversions_from(pc, i - 1, 20)
    }
}

/// The id that a phase gives a cube.
///
/// Phase one keeps the twelve edge flips. Phase two keeps the eight corner
/// twists, with the middle-slice bits of the twelve edge slots laid over the
/// first of them. Phase three keeps three words: the edge classes, the
/// corner classes, and whether the corners are an odd permutation. Phase
/// four keeps the whole cube.
pub open spec fn phase_id(phase: Phase, cube: CubieState) -> Seq<u32> {
    let pc = pochmann_cube(cube);
    match phase {
        Phase::One => Seq::new(
            40,
            |i: int|
                if i < 12 {
                    pc[20 + i]
                } else {
                    0u32
                },
        ),
        Phase::Two => Seq::new(
            40,
            |i: int|
                if i == 0 {
                    slice_mask(pc, pc[32], 12)
                } else if i < 8 {
                    pc[32 + i]
                } else {
                    0u32
                },
        ),
        Phase::Three => Seq::new(
            40,
            |i: int|
                if i == 0 {
                    edge_classes(pc, 12)
                } else if i == 1 {
                    corner_classes(pc, 8)
                } else if i == 2 {
                    (inversions(pc, 20) % 2) as u32
                } else {
                    0u32
                },
        ),
        Phase::Four => pc,
    }
}

impl Phase {
    /// The four phases in the order in which they run.
    pub open spec fn sequence() -> Seq<Phase> {
        seq![Phase::One, Phase::Two, Phase::Three, Phase::Four]
    }

    /// Whether the phase may use a move. Phase one uses every move; phase
    /// two turns Front and Back by half turns only; phase three turns only
    /// Up and Down by quarter turns; phase four uses half turns only.
    pub open spec fn permits(self, action: Move) -> bool {
        match self {
            Phase::One => true,
            Phase::Two => action.1 == Direction::Half || (action.0 != Position::Front && action.0
                != Position::Back),
            Phase::Three => action.1 == Direction::Half || action.0 == Position::Up || action.0
                == Position::Down,
            Phase::Four => action.1 == Direction::Half,
        }
    }

    /// Whether the phase may use every move of a sequence.
    pub open spec fn permits_all(self, actions: Seq<Move>) -> bool {
        forall|i: int| 0 <= i < actions.len() ==> self.permits(#[trigger] actions[i])
    }

    /// The moves that the phase may use, in the order in which the search
    /// tries them.
    pub open spec fn moves(self) -> Seq<Move> {
        match self {
            Phase::One => Move::all(),
            Phase::Two => seq![
                Move(Position::Up, Direction::Normal),
                Move(Position::Up, Direction::Prime),
                Move(Position::Up, Direction::Half),
                Move(Position::Down, Direction::Normal),
                Move(Position::Down, Direction::Prime),
                Move(Position::Down, Direction::Half),
                Move(Position::Left, Direction::Normal),
                Move(Position::Left, Direction::Prime),
                Move(Position::Left, Direction::Half),
                Move(Position::Right, Direction::Normal),
                Move(Position::Right, Direction::Prime),
                Move(Position::Right, Direction::Half),
                Move(Position::Front, Direction::Half),
                Move(Position::Back, Direction::Half),
            ],
            Phase::Three => seq![
                Move(Position::Up, Direction::Normal),
                Move(Position::Up, Direction::Prime),
                Move(Position::Up, Direction::Half),
                Move(Position::Down, Direction::Normal),
                Move(Position::Down, Direction::Prime),
                Move(Position::Down, Direction::Half),
                Move(Position::Left, Direction::Half),
                Move(Position::Right, Direction::Half),
                Move(Position::Front, Direction::Half),
                Move(Position::Back, Direction::Half),
            ],
            Phase::Four => seq![
                Move(Position::Up, Direction::Half),
                Move(Position::Down, Direction::Half),
                Move(Position::Left, Direction::Half),
                Move(Position::Right, Direction::Half),
                Move(Position::Front, Direction::Half),
                Move(Position::Back, Direction::Half),
            ],
        }
    }

    /// The four phases, in the order in which they run.
    pub fn iterator() -> (phases: [Phase; 4])
        ensures
            phases@ == Phase::sequence(),
    {
        let phases = [Phase::One, Phase::Two, Phase::Three, Phase::Four];
        assert(phases@ =~= Phase::sequence());
        phases
    }
}

/// The moves that a phase may use, in the order in which the search tries
/// them.
pub fn get_permitted_moves(phase: Phase) -> (moves: Vec<Move>)
    ensures
        moves@ == phase.moves(),
{
    let moves = match phase {
        Phase::One => vec![
            Move(Position::Up, Direction::Normal),
            Move(Position::Up, Direction::Prime),
            Move(Position::Up, Direction::Half),
            Move(Position::Down, Direction::Normal),
            Move(Position::Down, Direction::Prime),
            Move(Position::Down, Direction::Half),
            Move(Position::Left, Direction::Normal),
            Move(Position::Left, Direction::Prime),
            Move(Position::Left, Direction::Half),
            Move(Position::Right, Direction::Normal),
            Move(Position::Right, Direction::Prime),
            Move(Position::Right, Direction::Half),
            Move(Position::Front, Direction::Normal),
            Move(Position::Front, Direction::Prime),
            Move(Position::Front, Direction::Half),
            Move(Position::Back, Direction::Normal),
            Move(Position::Back, Direction::Prime),
            Move(Position::Back, Direction::Half),
        ],
        Phase::Two => vec![
            Move(Position::Up, Direction::Normal),
            Move(Position::Up, Direction::Prime),
            Move(Position::Up, Direction::Half),
            Move(Position::Down, Direction::Normal),
            Move(Position::Down, Direction::Prime),
            Move(Position::Down, Direction::Half),
            Move(Position::Left, Direction::Normal),
            Move(Position::Left, Direction::Prime),
            Move(Position::Left, Direction::Half),
            Move(Position::Right, Direction::Normal),
            Move(Position::Right, Direction::Prime),
            Move(Position::Right, Direction::Half),
            Move(Position::Front, Direction::Half),
            Move(Position::Back, Direction::Half),
        ],
        Phase::Three => vec![
            Move(Position::Up, Direction::Normal),
            Move(Position::Up, Direction::Prime),
            Move(Position::Up, Direction::Half),
            Move(Position::Down, Direction::Normal),
            Move(Position::Down, Direction::Prime),
            Move(Position::Down, Direction::Half),
            Move(Position::Left, Direction::Half),
            Move(Position::Right, Direction::Half),
            Move(Position::Front, Direction::Half),
            Move(Position::Back, Direction::Half),
        ],
        Phase::Four => vec![
            Move(Position::Up, Direction::Half),
            Move(Position::Down, Direction::Half),
            Move(Position::Left, Direction::Half),
            Move(Position::Right, Direction::Half),
            Move(Position::Front, Direction::Half),
            Move(Position::Back, Direction::Half),
        ],
    };
    assert(moves@ =~= phase.moves());
    moves
}

/// The home slots of the edges in the order of the forty-number form.
pub const EDGE_ORDER: [usize; 12] = [1, 0, 3, 2, 5, 4, 7, 6, 8, 9, 11, 10];

/// The home slots of the corners in the order of the forty-number form.
pub const CORNER_ORDER: [usize; 8] = [0, 3, 2, 1, 4, 5, 6, 7];

/// The number of an edge in the forty-number form.
pub fn to_pochmann_edge(e: Edge) -> (n: u32)
    ensures
        n == pochmann_edge(e.slot()),
{
    match e {
        Edge::UF => 0,
        Edge::UR => 1,
        Edge::UB => 2,
        Edge::UL => 3,
        Edge::DF => 4,
        Edge::DR => 5,
        Edge::DB => 6,
        Edge::DL => 7,
        Edge::FR => 8,
        Edge::FL => 9,
        Edge::BR => 10,
        Edge::BL => 11,
    }
}

/// The number of a corner in the forty-number form.
pub fn to_pochmann_corner(c: Corner) -> (n: u32)
    ensures
        n == 12 + pochmann_corner(c.slot()),
{
    match c {
        Corner::URF => 12,
        Corner::UBR => 13,
        Corner::ULB => 14,
        Corner::UFL => 15,
        Corner::DFR => 16,
        Corner::DLF => 17,
        Corner::DBL => 18,
        Corner::DRB => 19,
    }
}

/// Writes a cube out as forty numbers.
pub fn to_pochmann_cube(cube: CubieCube) -> (pc: PochmannCube)
    ensures
        pc@ == pochmann_cube(cube@),
{
    let mut pc: PochmannCube = [0u32; 40];

    let mut k: usize = 0;
    while k < 12
        invariant
            k <= 12,
            forall|j: int| 0 <= j < k ==> pc[j] == pochmann_cube(cube@)[j],
            forall|j: int| 20 <= j < 20 + k ==> pc[j] == pochmann_cube(cube@)[j],
        decreases 12 - k,
    {
        let slot = EDGE_ORDER[k];
        assert(slot == pochmann_edge(k as int));
        pc[k] = to_pochmann_edge(cube.ep[slot]);
        pc[20 + k] = cube.eo[slot] as u32;
        k += 1;
    }

    let mut k: usize = 0;
    while k < 8
        invariant
            k <= 8,
            forall|j: int| 0 <= j < 12 ==> pc[j] == pochmann_cube(cube@)[j],
            forall|j: int| 20 <= j < 32 ==> pc[j] == pochmann_cube(cube@)[j],
            forall|j: int| 12 <= j < 12 + k ==> pc[j] == pochmann_cube(cube@)[j],
            forall|j: int| 32 <= j < 32 + k ==> pc[j] == pochmann_cube(cube@)[j],
        decreases 8 - k,
    {
        let slot = CORNER_ORDER[k];
        assert(slot == pochmann_corner(k as int));
        pc[12 + k] = to_pochmann_corner(cube.cp[slot]);
        pc[32 + k] = cube.co[slot] as u32;
        k += 1;
    }

    assert(pc@ =~= pochmann_cube(cube@));
    pc
}

/// Flipping the lowest bit of a word that is 0 or 1 changes it to the
/// other; leaving it alone leaves it.
proof fn lemma_flip_bit(r: u32)
    requires
        r == 0 || r == 1,
    ensures
        r ^ 1 == 1 - r,
        r ^ 0 == r,
{
    assert(0u32 ^ 1 == 1) by (bit_vector);
    assert(1u32 ^ 1 == 0) by (bit_vector);
    assert(r ^ 0 == r) by (bit_vector);
}

/// Computes the id that a phase gives a cube.
pub fn to_phase_id(phase: Phase, cube: CubieCube) -> (id: PochmannCube)
    ensures
        id@ == phase_id(phase, cube@),
{
    let pc = to_pochmann_cube(cube);

    match phase {
        Phase::One => {
            let mut r: PochmannCube = [0u32; 40];
            let mut idx: usize = 0;
            while idx < 12
                invariant
                    idx <= 12,
                    forall|j: int| 0 <= j < idx ==> #[trigger] r[j] == pc[20 + j],
                    forall|j: int| idx <= j < 40 ==> r[j] == 0,
                decreases 12 - idx,
            {
                r[idx] = pc[20 + idx];
                idx += 1;
            }
            assert(r@ =~= phase_id(phase, cube@));
            r
        },
        Phase::Two => {
            let mut r: PochmannCube = [0u32; 40];
            let mut idx: usize = 0;
            while idx < 8
                invariant
                    idx <= 8,
                    forall|j: int| 0 <= j < idx ==> #[trigger] r[j] == pc[32 + j],
                    forall|j: int| idx <= j < 40 ==> r[j] == 0,
                decreases 8 - idx,
            {
                r[idx] = pc[32 + idx];
                idx += 1;
            }
            let mut idx: usize = 0;
            while idx < 12
                invariant
                    idx <= 12,
                    r[0] == slice_mask(pc@, pc[32], idx as nat),
                    forall|j: int| 1 <= j < 8 ==> #[trigger] r[j] == pc[32 + j],
                    forall|j: int| 8 <= j < 40 ==> r[j] == 0,
                decreases 12 - idx,
            {
                r[0] = r[0] | ((pc[idx] / 8) << (idx as u32));
                idx += 1;
            }
            assert(r@ =~= phase_id(phase, cube@));
            r
        },
        Phase::Three => {
            let mut r: PochmannCube = [0u32; 40];
            let mut idx: usize = 0;
            while idx < 12
                invariant
                    idx <= 12,
                    r[0] == edge_classes(pc@, idx as nat),
                    forall|j: int| 1 <= j < 40 ==> r[j] == 0,
                decreases 12 - idx,
            {
                let class: u32 = if pc[idx] > 7 {
                    2
                } else {
                    pc[idx] & 1
                };
                r[0] = r[0] | (class << ((2 * idx) as u32));
                idx += 1;
            }
            let mut idx: usize = 0;
            while idx < 8
                invariant
                    idx <= 8,
                    pc@ == pochmann_cube(cube@),
                    r[0] == edge_classes(pc@, 12),
                    r[1] == corner_classes(pc@, idx as nat),
                    forall|j: int| 2 <= j < 40 ==> r[j] == 0,
                decreases 8 - idx,
            {
                assert(pc[12 + idx as int] >= 12);
                r[1] = r[1] | (((pc[idx + 12] - 12) & 5) << ((3 * idx) as u32));
                idx += 1;
            }
            let mut i: usize = 12;
            while i < 20
                invariant
                    12 <= i <= 20,
                    r[0] == edge_classes(pc@, 12),
                    r[1] == corner_classes(pc@, 8),
                    r[2] == inversions(pc@, i as int) % 2,
                    forall|j: int| 3 <= j < 40 ==> r[j] == 0,
                decreases 20 - i,
            {
                let mut j: usize = i + 1;
                while j < 20
                    invariant
                        12 <= i < 20,
                        i + 1 <= j <= 20,
                        r[0] == edge_classes(pc@, 12),
                        r[1] == corner_classes(pc@, 8),
                        r[2] == (inversions(pc@, i as int) + inversions_from(
                            pc@,
                            i as int,
                            j as int,
                        )) % 2,
                        forall|k: int| 3 <= k < 40 ==> r[k] == 0,
                    decreases 20 - j,
                {
                    proof {
                        lemma_flip_bit(r[2]);
                    }
                    r[2] = r[2] ^ if pc[i] > pc[j] {
                        1
                    } else {
                        0
                    };
                    j += 1;
                }
                i += 1;
            }
            assert(r@ =~= phase_id(phase, cube@));
            r
        },
        Phase::Four => pc,
    }
}

/// The face's place among the six faces.
pub open spec fn face_number(face: Position) -> int {
    match face {
        Position::Up => 0,
        Position::Down => 1,
        Position::Left => 2,
        Position::Right => 3,
        Position::Front => 4,
        Position::Back => 5,
    }
}

/// A phase's move list holds exactly the moves that the phase permits, each
/// once, and with every move its inverse.
pub proof fn lemma_permitted_moves(phase: Phase, action: Move)
    ensures
        phase.moves().contains(action) <==> phase.permits(action),
        phase.moves().no_duplicates(),
        phase.permits(action) <==> phase.permits(action.spec_inverse()),
        phase.permits_all(phase.moves()),
{
    let ms = phase.moves();
    if phase.permits(action) {
        let f = face_number(action.0);
        let place = match phase {
            Phase::One => action.ordinal(),
            Phase::Two => if f < 4 {
                action.ordinal()
            } else {
                8 + f
            },
            Phase::Three => if f < 2 {
                action.ordinal()
            } else {
                4 + f
            },
            Phase::Four => f,
        };
        assert(ms[place] == action);
    }
}

/// The forty-number form tells well-formed cubes apart.
pub proof fn lemma_pochmann_cube_injective(a: CubieState, b: CubieState)
    requires
        a.wf(),
        b.wf(),
        pochmann_cube(a) == pochmann_cube(b),
    ensures
        a == b,
{
    let pa = pochmann_cube(a);
    let pb = pochmann_cube(b);
    assert forall|i: int| 0 <= i < 12 implies a.ep[i] == b.ep[i] && a.eo[i] == b.eo[i] by {
        let k = pochmann_edge(i);
        assert(pochmann_edge(k) == i);
        assert(0 <= a.ep[i] < 12 && 0 <= b.ep[i] < 12);
        assert(0 <= a.eo[i] < 2 && 0 <= b.eo[i] < 2);
        assert(pa[k] == pochmann_edge(a.ep[i]) as u32);
        assert(pb[k] == pochmann_edge(b.ep[i]) as u32);
        assert(0 <= pochmann_edge(a.ep[i]) < 12 && 0 <= pochmann_edge(b.ep[i]) < 12);
        assert(pochmann_edge(pochmann_edge(a.ep[i])) == a.ep[i]);
        assert(pochmann_edge(pochmann_edge(b.ep[i])) == b.ep[i]);
        assert(pa[20 + k] == a.eo[i] as u32);
        assert(pb[20 + k] == b.eo[i] as u32);
    }
    assert forall|i: int| 0 <= i < 8 implies a.cp[i] == b.cp[i] && a.co[i] == b.co[i] by {
        let k = pochmann_corner(i);
        assert(pochmann_corner(k) == i);
        assert(0 <= a.cp[i] < 8 && 0 <= b.cp[i] < 8);
        assert(0 <= a.co[i] < 6 && 0 <= b.co[i] < 6);
        assert(pa[12 + k] == (12 + pochmann_corner(a.cp[i])) as u32);
        assert(pb[12 + k] == (12 + pochmann_corner(b.cp[i])) as u32);
        assert(pochmann_corner(pochmann_corner(a.cp[i])) == a.cp[i]);
        assert(pochmann_corner(pochmann_corner(b.cp[i])) == b.cp[i]);
        assert(pa[32 + k] == a.co[i] as u32);
        assert(pb[32 + k] == b.co[i] as u32);
    }
    assert(a.cp =~= b.cp);
    assert(a.co =~= b.co);
    assert(a.ep =~= b.ep);
    assert(a.eo =~= b.eo);
}

} // verus!
