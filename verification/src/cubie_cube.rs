//! The cube on the cubie level: which corner and edge cubie sits in each
//! slot, and how each is twisted or flipped. Face turns act on it by
//! composition with six fixed cubes, one per face.

use vstd::prelude::*;

use crate::chance::choose_move;
use crate::moves::{Direction, Move, Position};

verus! {

/// The eight corner cubies, each named by the slot it occupies on the solved
/// cube.
#[derive(Debug, Copy, Clone, Hash, PartialEq, Eq, Structural)]
pub enum Corner {
    URF,
    UFL,
    ULB,
    UBR,
    DFR,
    DLF,
    DBL,
    DRB,
}

/// The twelve edge cubies, each named by the slot it occupies on the solved
/// cube.
#[derive(Debug, Copy, Clone, Hash, PartialEq, Eq, Structural)]
pub enum Edge {
    UR,
    UF,
    UL,
    UB,
    DR,
    DF,
    DL,
    DB,
    FR,
    FL,
    BL,
    BR,
}

impl Corner {
    /// The number of the corner's home slot, from 0 to 7.
    pub open spec fn slot(self) -> int {
        match self {
            Corner::URF => 0,
            Corner::UFL => 1,
            Corner::ULB => 2,
            Corner::UBR => 3,
            Corner::DFR => 4,
            Corner::DLF => 5,
            Corner::DBL => 6,
            Corner::DRB => 7,
        }
    }

    /// The corner whose home slot has a given number.
    pub open spec fn at(slot: int) -> Option<Corner> {
        if slot == 0 {
            Some(Corner::URF)
        } else if slot == 1 {
            Some(Corner::UFL)
        } else if slot == 2 {
            Some(Corner::ULB)
        } else if slot == 3 {
            Some(Corner::UBR)
        } else if slot == 4 {
            Some(Corner::DFR)
        } else if slot == 5 {
            Some(Corner::DLF)
        } else if slot == 6 {
            Some(Corner::DBL)
        } else if slot == 7 {
            Some(Corner::DRB)
        } else {
            None
        }
    }

    /// The number of the corner's home slot.
    pub fn index(self) -> (i: usize)
        ensures
            i == self.slot(),
            i < 8,
    {
        match self {
            Corner::URF => 0,
            Corner::UFL => 1,
            Corner::ULB => 2,
            Corner::UBR => 3,
            Corner::DFR => 4,
            Corner::DLF => 5,
            Corner::DBL => 6,
            Corner::DRB => 7,
        }
    }

    /// The corner whose home slot has the number `i`; none if `i` is not
    /// the number of a slot.
    pub fn from_index(i: usize) -> (r: Option<Corner>)
        ensures
            r == Corner::at(i as int),
    {
        if i == 0 {
            Some(Corner::URF)
        } else if i == 1 {
            Some(Corner::UFL)
        } else if i == 2 {
            Some(Corner::ULB)
        } else if i == 3 {
            Some(Corner::UBR)
        } else if i == 4 {
            Some(Corner::DFR)
        } else if i == 5 {
            Some(Corner::DLF)
        } else if i == 6 {
            Some(Corner::DBL)
        } else if i == 7 {
            Some(Corner::DRB)
        } else {
            None
        }
    }
}

impl Edge {
    /// The number of the edge's home slot, from 0 to 11.
    pub open spec fn slot(self) -> int {
        match self {
            Edge::UR => 0,
            Edge::UF => 1,
            Edge::UL => 2,
            Edge::UB => 3,
            Edge::DR => 4,
            Edge::DF => 5,
            Edge::DL => 6,
            Edge::DB => 7,
            Edge::FR => 8,
            Edge::FL => 9,
            Edge::BL => 10,
            Edge::BR => 11,
        }
    }

    /// The edge whose home slot has a given number.
    pub open spec fn at(slot: int) -> Option<Edge> {
        if slot == 0 {
            Some(Edge::UR)
        } else if slot == 1 {
            Some(Edge::UF)
        } else if slot == 2 {
            Some(Edge::UL)
        } else if slot == 3 {
            Some(Edge::UB)
        } else if slot == 4 {
            Some(Edge::DR)
        } else if slot == 5 {
            Some(Edge::DF)
        } else if slot == 6 {
            Some(Edge::DL)
        } else if slot == 7 {
            Some(Edge::DB)
        } else if slot == 8 {
            Some(Edge::FR)
        } else if slot == 9 {
            Some(Edge::FL)
        } else if slot == 10 {
            Some(Edge::BL)
        } else if slot == 11 {
            Some(Edge::BR)
        } else {
            None
        }
    }

    /// The number of the edge's home slot.
    pub fn index(self) -> (i: usize)
        ensures
            i == self.slot(),
            i < 12,
    {
        match self {
            Edge::UR => 0,
            Edge::UF => 1,
            Edge::UL => 2,
            Edge::UB => 3,
            Edge::DR => 4,
            Edge::DF => 5,
            Edge::DL => 6,
            Edge::DB => 7,
            Edge::FR => 8,
            Edge::FL => 9,
            Edge::BL => 10,
            Edge::BR => 11,
        }
    }

    /// The edge whose home slot has the number `i`; none if `i` is not the
    /// number of a slot.
    pub fn from_index(i: usize) -> (r: Option<Edge>)
        ensures
            r == Edge::at(i as int),
    {
        if i == 0 {
            Some(Edge::UR)
        } else if i == 1 {
            Some(Edge::UF)
        } else if i == 2 {
            Some(Edge::UL)
        } else if i == 3 {
            Some(Edge::UB)
        } else if i == 4 {
            Some(Edge::DR)
        } else if i == 5 {
            Some(Edge::DF)
        } else if i == 6 {
            Some(Edge::DL)
        } else if i == 7 {
            Some(Edge::DB)
        } else if i == 8 {
            Some(Edge::FR)
        } else if i == 9 {
            Some(Edge::FL)
        } else if i == 10 {
            Some(Edge::BL)
        } else if i == 11 {
            Some(Edge::BR)
        } else {
            None
        }
    }
}

/// The cube as the search sees it. `cp[i]` and `ep[i]` name the cubie that
/// sits in slot `i`; `co[i]` and `eo[i]` say how the cubie in slot `i` is
/// twisted or flipped, 0 meaning not at all.
#[derive(Debug, Copy, Clone, Hash, PartialEq, Eq)]
pub struct CubieCube {
    pub cp: [Corner; 8],
    pub co: [u8; 8],
    pub ep: [Edge; 12],
    pub eo: [u8; 12],
}

/// The mathematical content of a `CubieCube`: two maps from slots to the
/// home slots of the cubies in them, and two orientation vectors.
pub struct CubieState {
    pub cp: Seq<int>,
    pub co: Seq<int>,
    pub ep: Seq<int>,
    pub eo: Seq<int>,
}

impl View for CubieCube {
    type V = CubieState;

    open spec fn view(&self) -> CubieState {
        CubieState {
            cp: Seq::new(8, |i: int| self.cp[i].slot()),
            co: Seq::new(8, |i: int| self.co[i] as int),
            ep: Seq::new(12, |i: int| self.ep[i].slot()),
            eo: Seq::new(12, |i: int| self.eo[i] as int),
        }
    }
}

/// How two corner twists combine when the second cube is applied after the
/// first. Twists 0, 1, 2 are those of an ordinary cube; 3, 4, 5 are those of
/// a mirrored one. Two ordinary twists add modulo three; an ordinary twist
/// followed by a mirrored one adds and stays mirrored; a mirrored twist
/// followed by an ordinary one subtracts and stays mirrored; two mirrored
/// twists subtract and give an ordinary one.
pub open spec fn compose_twist(first: int, second: int) -> int {
    if first < 3 && second < 3 {
        if first + second >= 3 {
            first + second - 3
        } else {
            first + second
        }
    } else if first < 3 {
        if first + second >= 6 {
            first + second - 3
        } else {
            first + second
        }
    } else if second < 3 {
        if first - second < 3 {
            first - second + 3
        } else {
            first - second
        }
    } else {
        if first - second < 0 {
            first - second + 3
        } else {
            first - second
        }
    }
}

impl CubieState {
    /// Every slot holds a cubie of its kind, every twist is one of the six
    /// values that composition knows, and every flip is 0 or 1.
    pub open spec fn wf(self) -> bool {
        &&& self.cp.len() == 8
        &&& self.co.len() == 8
        &&& self.ep.len() == 12
        &&& self.eo.len() == 12
        &&& forall|i: int| 0 <= i < 8 ==> 0 <= #[trigger] self.cp[i] < 8
        &&& forall|i: int| 0 <= i < 8 ==> 0 <= #[trigger] self.co[i] < 6
        &&& forall|i: int| 0 <= i < 12 ==> 0 <= #[trigger] self.ep[i] < 12
        &&& forall|i: int| 0 <= i < 12 ==> 0 <= #[trigger] self.eo[i] < 2
    }

    /// No corner is mirrored: every twist is 0, 1 or 2.
    pub open spec fn unmirrored(self) -> bool {
        forall|i: int| 0 <= i < 8 ==> #[trigger] self.co[i] < 3
    }

    /// The solved cube: every cubie at home, none twisted or flipped.
    pub open spec fn solved() -> CubieState {
        CubieState {
            cp: Seq::new(8, |i: int| i),
            co: Seq::new(8, |i: int| 0int),
            ep: Seq::new(12, |i: int| i),
            eo: Seq::new(12, |i: int| 0int),
        }
    }

    /// The cube that results from applying `other` after `self`: slot `i`
    /// receives the cubie that `self` holds in the slot from which `other`
    /// fetches, and the two orientations combine.
    pub open spec fn multiply(self, other: CubieState) -> CubieState {
        CubieState {
            cp: Seq::new(8, |i: int| self.cp[other.cp[i]]),
            co: Seq::new(8, |i: int| compose_twist(self.co[other.cp[i]], other.co[i])),
            ep: Seq::new(12, |i: int| self.ep[other.ep[i]]),
            eo: Seq::new(12, |i: int| (other.eo[i] + self.eo[other.ep[i]]) % 2),
        }
    }

    /// The cube that one clockwise quarter turn of a face makes of the
    /// solved cube.
    pub open spec fn base_move(face: Position) -> CubieState {
        match face {
            Position::Up => CubieState {
                cp: seq![3, 0, 1, 2, 4, 5, 6, 7],
                co: seq![0, 0, 0, 0, 0, 0, 0, 0],
                ep: seq![3, 0, 1, 2, 4, 5, 6, 7, 8, 9, 10, 11],
                eo: seq![0, 0, 0, 0, 0, 0, 0, 0, 0, 0, 0, 0],
            },
            Position::Right => CubieState {
                cp: seq![4, 1, 2, 0, 7, 5, 6, 3],
                co: seq![2, 0, 0, 1, 1, 0, 0, 2],
                ep: seq![8, 1, 2, 3, 11, 5, 6, 7, 4, 9, 10, 0],
                eo: seq![0, 0, 0, 0, 0, 0, 0, 0, 0, 0, 0, 0],
            },
            Position::Front => CubieState {
                cp: seq![1, 5, 2, 3, 0, 4, 6, 7],
                co: seq![1, 2, 0, 0, 2, 1, 0, 0],
                ep: seq![0, 9, 2, 3, 4, 8, 6, 7, 1, 5, 10, 11],
                eo: seq![0, 1, 0, 0, 0, 1, 0, 0, 1, 1, 0, 0],
            },
            Position::Down => CubieState {
                cp: seq![0, 1, 2, 3, 5, 6, 7, 4],
                co: seq![0, 0, 0, 0, 0, 0, 0, 0],
                ep: seq![0, 1, 2, 3, 5, 6, 7, 4, 8, 9, 10, 11],
                eo: seq![0, 0, 0, 0, 0, 0, 0, 0, 0, 0, 0, 0],
            },
            Position::Left => CubieState {
                cp: seq![0, 2, 6, 3, 4, 1, 5, 7],
                co: seq![0, 1, 2, 0, 0, 2, 1, 0],
                ep: seq![0, 1, 10, 3, 4, 5, 9, 7, 8, 2, 6, 11],
                eo: seq![0, 0, 0, 0, 0, 0, 0, 0, 0, 0, 0, 0],
            },
            Position::Back => CubieState {
                cp: seq![0, 1, 3, 7, 4, 5, 2, 6],
                co: seq![0, 0, 1, 2, 0, 0, 2, 1],
                ep: seq![0, 1, 2, 11, 4, 5, 6, 10, 8, 9, 3, 7],
                eo: seq![0, 0, 0, 1, 0, 0, 0, 1, 0, 0, 1, 1],
            },
        }
    }

    /// The cube after one move: a Normal turn composes with the face's base
    /// cube once, a Half turn twice, a Prime turn three times.
    pub open spec fn apply_move(self, action: Move) -> CubieState {
        let base = CubieState::base_move(action.0);
        match action.1 {
            Direction::Normal => self.multiply(base),
            Direction::Half => self.multiply(base).multiply(base),
            Direction::Prime => self.multiply(base).multiply(base).multiply(base),
        }
    }

    /// The cube after a sequence of moves, applied in order.
    pub open spec fn apply_moves(self, actions: Seq<Move>) -> CubieState
        decreases actions.len(),
    {
        if actions.len() == 0 {
            self
        } else {
            self.apply_moves(actions.drop_last()).apply_move(actions.last())
        }
    }
}

impl CubieCube {
    /// The solved cube.
    pub fn solved() -> (cube: CubieCube)
        ensures
            cube@ == CubieState::solved(),
            cube@.wf(),
    {
        let cube = CubieCube {
            cp: [
                Corner::URF,
                Corner::UFL,
                Corner::ULB,
                Corner::UBR,
                Corner::DFR,
                Corner::DLF,
                Corner::DBL,
                Corner::DRB,
            ],
            co: [0; 8],
            ep: [
                Edge::UR,
                Edge::UF,
                Edge::UL,
                Edge::UB,
                Edge::DR,
                Edge::DF,
                Edge::DL,
                Edge::DB,
                Edge::FR,
                Edge::FL,
                Edge::BL,
                Edge::BR,
            ],
            eo: [0; 12],
        };
        assert(cube@.cp =~= CubieState::solved().cp);
        assert(cube@.co =~= CubieState::solved().co);
        assert(cube@.ep =~= CubieState::solved().ep);
        assert(cube@.eo =~= CubieState::solved().eo);
        cube
    }

    /// Whether every twist and flip is in range, so that the cube can be
    /// composed with others.
    pub fn is_wf(&self) -> (b: bool)
        ensures
            b == self@.wf(),
    {
        let mut i: usize = 0;
        while i < 8
            invariant
                i <= 8,
                forall|j: int| 0 <= j < i ==> self.co[j] < 6,
            decreases 8 - i,
        {
            if self.co[i] >= 6 {
                assert(!(self@.co[i as int] < 6));
                return false;
            }
            i += 1;
        }
        let mut i: usize = 0;
        while i < 12
            invariant
                i <= 12,
                forall|j: int| 0 <= j < 8 ==> self.co[j] < 6,
                forall|j: int| 0 <= j < i ==> self.eo[j] < 2,
            decreases 12 - i,
        {
            if self.eo[i] >= 2 {
                assert(!(self@.eo[i as int] < 2));
                return false;
            }
            i += 1;
        }
        true
    }

    /// Composes two cubes: the result is what `other` makes of `self`.
    pub fn multiply(&self, other: CubieCube) -> (product: CubieCube)
        requires
            self@.wf(),
            other@.wf(),
        ensures
            product@ == self@.multiply(other@),
            product@.wf(),
    {
        let mut new_ep = self.ep;
        let mut new_eo = self.eo;

        let mut idx: usize = 0;
        while idx < 12
            invariant
                idx <= 12,
                self@.wf(),
                other@.wf(),
                forall|j: int| 0 <= j < idx ==> new_ep[j] == self.ep[other.ep[j].slot()],
                forall|j: int|
                    0 <= j < idx ==> new_eo[j] as int == (other.eo[j] + self.eo[other.ep[j].slot()])
                        % 2,
            decreases 12 - idx,
        {
            let from = other.ep[idx].index();
            assert(other@.eo[idx as int] < 2);
            assert(self@.eo[from as int] < 2);
            new_ep[idx] = self.ep[from];
            new_eo[idx] = (other.eo[idx] + self.eo[from]) % 2;
            idx += 1;
        }

        let mut new_cp = self.cp;
        let mut new_co = self.co;

        let mut idx: usize = 0;
        while idx < 8
            invariant
                idx <= 8,
                self@.wf(),
                other@.wf(),
                forall|j: int| 0 <= j < idx ==> new_cp[j] == self.cp[other.cp[j].slot()],
                forall|j: int|
                    0 <= j < idx ==> new_co[j] as int == compose_twist(
                        self.co[other.cp[j].slot()] as int,
                        other.co[j] as int,
                    ),
            decreases 8 - idx,
        {
            let from = other.cp[idx].index();
            let ori_self = self.co[from];
            let ori_other = other.co[idx];
            assert(self@.co[from as int] < 6);
            assert(other@.co[idx as int] < 6);
            let mut ori: u8;

            if ori_self < 3 && ori_other < 3 {
                // two ordinary cubes
                ori = ori_self + ori_other;
                if ori >= 3 {
                    ori -= 3;
                }
            } else if ori_self < 3 {
                // the second cube is mirrored
                ori = ori_self + ori_other;
                if ori >= 6 {
                    ori -= 3;
                }
            } else if ori_other < 3 {
                // the first cube is mirrored
                ori = ori_self - ori_other;
                if ori < 3 {
                    ori += 3;
                }
            } else {
                // both cubes are mirrored
                if ori_self < ori_other {
                    ori = ori_self + 3 - ori_other;
                } else {
                    ori = ori_self - ori_other;
                }
            }

            new_cp[idx] = self.cp[from];
            new_co[idx] = ori;
            idx += 1;
        }

        let product = CubieCube { cp: new_cp, co: new_co, ep: new_ep, eo: new_eo };
        assert(product@.cp =~= self@.multiply(other@).cp);
        assert(product@.co =~= self@.multiply(other@).co);
        assert(product@.ep =~= self@.multiply(other@).ep);
        assert(product@.eo =~= self@.multiply(other@).eo);
        product
    }

    /// The cube that one clockwise quarter turn of `face` makes of the
    /// solved cube.
    pub fn base_move(face: Position) -> (cube: CubieCube)
        ensures
            cube@ == CubieState::base_move(face),
            cube@.wf(),
    {
        let cube = match face {
            Position::Up => CubieCube {
                cp: [
                    Corner::UBR,
                    Corner::URF,
                    Corner::UFL,
                    Corner::ULB,
                    Corner::DFR,
                    Corner::DLF,
                    Corner::DBL,
                    Corner::DRB,
                ],
                co: [0; 8],
                ep: [
                    Edge::UB,
                    Edge::UR,
                    Edge::UF,
                    Edge::UL,
                    Edge::DR,
                    Edge::DF,
                    Edge::DL,
                    Edge::DB,
                    Edge::FR,
                    Edge::FL,
                    Edge::BL,
                    Edge::BR,
                ],
                eo: [0; 12],
            },
            Position::Right => CubieCube {
                cp: [
                    Corner::DFR,
                    Corner::UFL,
                    Corner::ULB,
                    Corner::URF,
                    Corner::DRB,
                    Corner::DLF,
                    Corner::DBL,
                    Corner::UBR,
                ],
                co: [2, 0, 0, 1, 1, 0, 0, 2],
                ep: [
                    Edge::FR,
                    Edge::UF,
                    Edge::UL,
                    Edge::UB,
                    Edge::BR,
                    Edge::DF,
                    Edge::DL,
                    Edge::DB,
                    Edge::DR,
                    Edge::FL,
                    Edge::BL,
                    Edge::UR,
                ],
                eo: [0; 12],
            },
            Position::Front => CubieCube {
                cp: [
                    Corner::UFL,
                    Corner::DLF,
                    Corner::ULB,
                    Corner::UBR,
                    Corner::URF,
                    Corner::DFR,
                    Corner::DBL,
                    Corner::DRB,
                ],
                co: [1, 2, 0, 0, 2, 1, 0, 0],
                ep: [
                    Edge::UR,
                    Edge::FL,
                    Edge::UL,
                    Edge::UB,
                    Edge::DR,
                    Edge::FR,
                    Edge::DL,
                    Edge::DB,
                    Edge::UF,
                    Edge::DF,
                    Edge::BL,
                    Edge::BR,
                ],
                eo: [0, 1, 0, 0, 0, 1, 0, 0, 1, 1, 0, 0],
            },
            Position::Down => CubieCube {
                cp: [
                    Corner::URF,
                    Corner::UFL,
                    Corner::ULB,
                    Corner::UBR,
                    Corner::DLF,
                    Corner::DBL,
                    Corner::DRB,
                    Corner::DFR,
                ],
                co: [0; 8],
                ep: [
                    Edge::UR,
                    Edge::UF,
                    Edge::UL,
                    Edge::UB,
                    Edge::DF,
                    Edge::DL,
                    Edge::DB,
                    Edge::DR,
                    Edge::FR,
                    Edge::FL,
                    Edge::BL,
                    Edge::BR,
                ],
                eo: [0; 12],
            },
            Position::Left => CubieCube {
                cp: [
                    Corner::URF,
                    Corner::ULB,
                    Corner::DBL,
                    Corner::UBR,
                    Corner::DFR,
                    Corner::UFL,
                    Corner::DLF,
                    Corner::DRB,
                ],
                co: [0, 1, 2, 0, 0, 2, 1, 0],
                ep: [
                    Edge::UR,
                    Edge::UF,
                    Edge::BL,
                    Edge::UB,
                    Edge::DR,
                    Edge::DF,
                    Edge::FL,
                    Edge::DB,
                    Edge::FR,
                    Edge::UL,
                    Edge::DL,
                    Edge::BR,
                ],
                eo: [0; 12],
            },
            Position::Back => CubieCube {
                cp: [
                    Corner::URF,
                    Corner::UFL,
                    Corner::UBR,
                    Corner::DRB,
                    Corner::DFR,
                    Corner::DLF,
                    Corner::ULB,
                    Corner::DBL,
                ],
                co: [0, 0, 1, 2, 0, 0, 2, 1],
                ep: [
                    Edge::UR,
                    Edge::UF,
                    Edge::UL,
                    Edge::BR,
                    Edge::DR,
                    Edge::DF,
                    Edge::DL,
                    Edge::BL,
                    Edge::FR,
                    Edge::FL,
                    Edge::UB,
                    Edge::DB,
                ],
                eo: [0, 0, 0, 1, 0, 0, 0, 1, 0, 0, 1, 1],
            },
        };
        assert(cube@.cp =~= CubieState::base_move(face).cp);
        assert(cube@.co =~= CubieState::base_move(face).co);
        assert(cube@.ep =~= CubieState::base_move(face).ep);
        assert(cube@.eo =~= CubieState::base_move(face).eo);
        cube
    }

    /// Applies one move.
    pub fn apply_move(self, action: &Move) -> (cube: CubieCube)
        requires
            self@.wf(),
        ensures
            cube@ == self@.apply_move(*action),
            cube@.wf(),
    {
        let base = CubieCube::base_move(action.0);
        match action.1 {
            Direction::Normal => self.multiply(base),
            Direction::Half => self.multiply(base).multiply(base),
            Direction::Prime => self.multiply(base).multiply(base).multiply(base),
        }
    }

    /// Applies a sequence of moves, in order.
    pub fn apply_moves(self, actions: &Vec<Move>) -> (cube: CubieCube)
        requires
            self@.wf(),
        ensures
            cube@ == self@.apply_moves(actions@),
            cube@.wf(),
    {
        let mut cube = self;
        let mut i: usize = 0;
        while i < actions.len()
            invariant
                i <= actions.len(),
                cube@.wf(),
                cube@ == self@.apply_moves(actions@.take(i as int)),
            decreases actions.len() - i,
        {
            proof {
                let next = actions@.take(i as int + 1);
                assert(next.drop_last() =~= actions@.take(i as int));
                assert(next.last() == actions@[i as int]);
            }
            cube = cube.apply_move(&actions[i]);
            i += 1;
        }
        assert(actions@.take(i as int) =~= actions@);
        cube
    }

    /// The cube that `total_moves` moves, each picked at random, make of the
    /// solved cube.
    pub fn random(total_moves: u8) -> (cube: CubieCube)
        ensures
            cube@.wf(),
            cube@.physical(),
            exists|actions: Seq<Move>|
                actions.len() == total_moves && #[trigger] CubieState::solved().apply_moves(
                    actions,
                ) == cube@,
    {
        let mut rng = rand::thread_rng();
        let available = Move::available();
        let mut cube = CubieCube::solved();
        let ghost mut done = Seq::<Move>::empty();
        let mut n: u8 = 0;
        while n < total_moves
            invariant
                n <= total_moves,
                done.len() == n,
                cube@.wf(),
                cube@.unmirrored(),
                cube@ == CubieState::solved().apply_moves(done),
            decreases total_moves - n,
        {
            let picked = choose_move(&available, &mut rng);
            match picked {
                Some(action) => {
                    proof {
                        assert(done.push(action).drop_last() =~= done);
                        crate::cube_laws::lemma_apply_move_is_multiply(cube@, action);
                        done = done.push(action);
                    }
                    cube = cube.apply_move(&action);
                },
                None => {},
            }
            n += 1;
        }
        proof {
            crate::physical::lemma_reachable_is_physical(done);
        }
        cube
    }
}

impl Default for CubieCube {
    fn default() -> (cube: CubieCube)
        ensures
            cube@ == CubieState::solved(),
    {
        CubieCube::solved()
    }
}

/// Two cubes with the same mathematical content are the same cube.
pub proof fn lemma_view_injective(a: CubieCube, b: CubieCube)
    requires
        a@ == b@,
    ensures
        a == b,
{
    assert forall|i: int| 0 <= i < 8 implies a.cp[i] == b.cp[i] && a.co[i] == b.co[i] by {
        assert(a@.cp[i] == a.cp[i].slot() && b@.cp[i] == b.cp[i].slot());
        assert(a@.co[i] == a.co[i] && b@.co[i] == b.co[i]);
        assert(Corner::at(a.cp[i].slot()) == Some(a.cp[i]));
        assert(Corner::at(b.cp[i].slot()) == Some(b.cp[i]));
    }
    assert forall|i: int| 0 <= i < 12 implies a.ep[i] == b.ep[i] && a.eo[i] == b.eo[i] by {
        assert(a@.ep[i] == a.ep[i].slot() && b@.ep[i] == b.ep[i].slot());
        assert(a@.eo[i] == a.eo[i] && b@.eo[i] == b.eo[i]);
        assert(Edge::at(a.ep[i].slot()) == Some(a.ep[i]));
        assert(Edge::at(b.ep[i].slot()) == Some(b.ep[i]));
    }
    assert(a.cp =~= b.cp);
    assert(a.co =~= b.co);
    assert(a.ep =~= b.ep);
    assert(a.eo =~= b.eo);
}

} // verus!
