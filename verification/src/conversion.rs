//! Between stickers and cubies: a cubie cube is painted onto the fifty-four
//! stickers, and stickers are read back as cubies by looking up the colours
//! found at each slot.

use vstd::prelude::*;

use crate::chance::choose_move;
use crate::cubie_cube::{lemma_view_injective, Corner, CubieCube, CubieState, Edge};
use crate::facelet_cube::{
    solved_facelets,
    Colour,
    FaceletCube,
    CORNER_COLOURS,
    CORNER_FACELETS,
    EDGE_COLOURS,
    EDGE_FACELETS,
};
use crate::moves::Move;

verus! {

/// The stickers after the corner in slot `i` has been painted: sticker
/// `k` of the cubie goes to the slot's position `k` moved on by the twist.
pub open spec fn paint_corner(faces: Seq<Colour>, cube: CubieState, i: int) -> Seq<Colour> {
    let twist = cube.co[i];
    let corner = cube.cp[i];
    faces.update(CORNER_FACELETS[i][twist % 3] as int, CORNER_COLOURS[corner][0]).update(
        CORNER_FACELETS[i][(1 + twist) % 3] as int,
        CORNER_COLOURS[corner][1],
    ).update(CORNER_FACELETS[i][(2 + twist) % 3] as int, CORNER_COLOURS[corner][2])
}

/// The stickers after the corners in the first `n` slots have been painted.
pub open spec fn paint_corners(faces: Seq<Colour>, cube: CubieState, n: nat) -> Seq<Colour>
    decreases n,
{
    if n == 0 {
        faces
    } else {
        paint_corner(paint_corners(faces, cube, (n - 1) as nat), cube, n - 1)
    }
}

/// The stickers after the edge in slot `i` has been painted.
pub open spec fn paint_edge(faces: Seq<Colour>, cube: CubieState, i: int) -> Seq<Colour> {
    let flip = cube.eo[i];
    let edge = cube.ep[i];
    faces.update(EDGE_FACELETS[i][flip % 2] as int, EDGE_COLOURS[edge][0]).update(
        EDGE_FACELETS[i][(1 + flip) % 2] as int,
        EDGE_COLOURS[edge][1],
    )
}

/// The stickers after the edges in the first `n` slots have been painted.
pub open spec fn paint_edges(faces: Seq<Colour>, cube: CubieState, n: nat) -> Seq<Colour>
    decreases n,
{
    if n == 0 {
        faces
    } else {
        paint_edge(paint_edges(faces, cube, (n - 1) as nat), cube, n - 1)
    }
}

/// The stickers of a cubie cube: the centres as on the solved cube, and
/// all corners and edges painted.
pub open spec fn facelets_of(cube: CubieState) -> Seq<Colour> {
    paint_edges(paint_corners(solved_facelets(), cube, 8), cube, 12)
}

/// Whether a colour is that of the Up or the Down face.
pub open spec fn is_up_or_down(colour: Colour) -> bool {
    colour == Colour::U || colour == Colour::D
}

/// The twist of the corner in slot `i`, read off the stickers: the place
/// of the first sticker that has the Up or the Down colour, or 3 if none
/// has.
pub open spec fn corner_twist(faces: Seq<Colour>, i: int) -> int {
    if is_up_or_down(faces[CORNER_FACELETS[i][0] as int]) {
        0
    } else if is_up_or_down(faces[CORNER_FACELETS[i][1] as int]) {
        1
    } else if is_up_or_down(faces[CORNER_FACELETS[i][2] as int]) {
        2
    } else {
        3
    }
}

/// The first corner, from `from` on, whose second and third sticker have
/// the given colours.
pub open spec fn find_corner(second: Colour, third: Colour, from: int) -> Option<int>
    decreases 8 - from,
{
    if from < 0 || from >= 8 {
        None
    } else if CORNER_COLOURS[from][1] == second && CORNER_COLOURS[from][2] == third {
        Some(from)
    } else {
        find_corner(second, third, from + 1)
    }
}

/// The first edge, from `from` on, whose two stickers have the given
/// colours, together with its flip: 0 if the colours come in the edge's own
/// order, 1 if they come swapped.
pub open spec fn find_edge(first: Colour, second: Colour, from: int) -> Option<(int, int)>
    decreases 12 - from,
{
    if from < 0 || from >= 12 {
        None
    } else if EDGE_COLOURS[from][0] == first && EDGE_COLOURS[from][1] == second {
        Some((from, 0int))
    } else if EDGE_COLOURS[from][1] == first && EDGE_COLOURS[from][0] == second {
        Some((from, 1int))
    } else {
        find_edge(first, second, from + 1)
    }
}

/// The corner that the stickers show in slot `i`, if they show one: the
/// corner is told by the two stickers that follow the Up or Down sticker.
pub open spec fn corner_shown(faces: Seq<Colour>, i: int) -> Option<int> {
    let twist = corner_twist(faces, i);
    find_corner(
        faces[CORNER_FACELETS[i][(twist + 1) % 3] as int],
        faces[CORNER_FACELETS[i][(twist + 2) % 3] as int],
        0,
    )
}

/// The edge that the stickers show in slot `i`, with its flip, if they show
/// one.
pub open spec fn edge_shown(faces: Seq<Colour>, i: int) -> Option<(int, int)> {
    find_edge(faces[EDGE_FACELETS[i][0] as int], faces[EDGE_FACELETS[i][1] as int], 0)
}

/// The cubie cube that stickers show. A slot whose stickers show no cubie
/// is taken to hold its own cubie, untwisted.
pub open spec fn cubie_of(faces: Seq<Colour>) -> CubieState {
    CubieState {
        cp: Seq::new(
            8,
            |i: int|
                match corner_shown(faces, i) {
                    Some(corner) => corner,
                    None => i,
                },
        ),
        co: Seq::new(
            8,
            |i: int|
                match corner_shown(faces, i) {
                    Some(corner) => corner_twist(faces, i),
                    None => 0,
                },
        ),
        ep: Seq::new(
            12,
            |i: int|
                match edge_shown(faces, i) {
                    Some(found) => found.0,
                    None => i,
                },
        ),
        eo: Seq::new(
            12,
            |i: int|
                match edge_shown(faces, i) {
                    Some(found) => found.1,
                    None => 0,
                },
        ),
    }
}

/// Looks up the corner whose second and third sticker have the given
/// colours.
fn lookup_corner(second: Colour, third: Colour) -> (found: Option<Corner>)
    ensures
        match found {
            Some(corner) => find_corner(second, third, 0) == Some(corner.slot()),
            None => find_corner(second, third, 0) is None,
        },
{
    let mut j: usize = 0;
    while j < 8
        invariant
            j <= 8,
            find_corner(second, third, 0) == find_corner(second, third, j as int),
        decreases 8 - j,
    {
        let col = CORNER_COLOURS[j];
        if second == col[1] && third == col[2] {
            return Corner::from_index(j);
        }
        j += 1;
    }
    None
}

/// Looks up the edge whose two stickers have the given colours, in either
/// order, and says whether they come swapped.
fn lookup_edge(first: Colour, second: Colour) -> (found: Option<(Edge, u8)>)
    ensures
        match found {
            Some(edge) => find_edge(first, second, 0) == Some((edge.0.slot(), edge.1 as int))
                && edge.1 <= 1,
            None => find_edge(first, second, 0) is None,
        },
{
    let mut j: usize = 0;
    while j < 12
        invariant
            j <= 12,
            find_edge(first, second, 0) == find_edge(first, second, j as int),
        decreases 12 - j,
    {
        let col = EDGE_COLOURS[j];
        if first == col[0] && second == col[1] {
            return match Edge::from_index(j) {
                Some(edge) => Some((edge, 0)),
                None => None,
            };
        }
        if first == col[1] && second == col[0] {
            return match Edge::from_index(j) {
                Some(edge) => Some((edge, 1)),
                None => None,
            };
        }
        j += 1;
    }
    None
}

impl FaceletCube {
    /// Paints a cubie cube onto the stickers.
    pub fn from_cubie(cube: CubieCube) -> (faces: FaceletCube)
        ensures
            faces@ == facelets_of(cube@),
    {
        let mut state = FaceletCube::solved().state;

        let mut i: usize = 0;
        while i < 8
            invariant
                i <= 8,
                state@ == paint_corners(solved_facelets(), cube@, i as nat),
            decreases 8 - i,
        {
            let twist: usize = cube.co[i] as usize;
            let colours = CORNER_COLOURS[cube.cp[i].index()];
            let places = CORNER_FACELETS[i];
            state[places[twist % 3]] = colours[0];
            state[places[(1 + twist) % 3]] = colours[1];
            state[places[(2 + twist) % 3]] = colours[2];
            i += 1;
        }

        let ghost cornered = state@;
        let mut i: usize = 0;
        while i < 12
            invariant
                i <= 12,
                state@ == paint_edges(cornered, cube@, i as nat),
            decreases 12 - i,
        {
            let flip: usize = cube.eo[i] as usize;
            let colours = EDGE_COLOURS[cube.ep[i].index()];
            let places = EDGE_FACELETS[i];
            state[places[flip % 2]] = colours[0];
            state[places[(1 + flip) % 2]] = colours[1];
            i += 1;
        }

        FaceletCube { state }
    }
}

impl CubieCube {
    /// Reads the cubies off the stickers.
    pub fn from_facelets(faces: FaceletCube) -> (cube: CubieCube)
        ensures
            cube@ == cubie_of(faces@),
            cube@.wf(),
    {
        let solved = CubieCube::solved();
        let mut cp = solved.cp;
        let mut co = solved.co;
        let mut ep = solved.ep;
        let mut eo = solved.eo;
        proof {
            assert forall|j: int| 0 <= j < 8 implies (#[trigger] cp[j]).slot() == j by {
                assert(solved@.cp[j] == j);
            }
            assert forall|j: int| 0 <= j < 8 implies (#[trigger] co[j]) == 0 by {
                assert(solved@.co[j] == 0);
            }
            assert forall|j: int| 0 <= j < 12 implies (#[trigger] ep[j]).slot() == j by {
                assert(solved@.ep[j] == j);
            }
            assert forall|j: int| 0 <= j < 12 implies (#[trigger] eo[j]) == 0 by {
                assert(solved@.eo[j] == 0);
            }
        }

        let mut i: usize = 0;
        while i < 8
            invariant
                i <= 8,
                forall|j: int| 0 <= j < i ==> (#[trigger] cp[j]).slot() == cubie_of(faces@).cp[j],
                forall|j: int| 0 <= j < i ==> (#[trigger] co[j]) as int == cubie_of(faces@).co[j],
                forall|j: int| 0 <= j < i ==> (#[trigger] co[j]) <= 3,
                forall|j: int| i <= j < 8 ==> (#[trigger] cp[j]).slot() == j,
                forall|j: int| i <= j < 8 ==> (#[trigger] co[j]) == 0,
                forall|j: int| 0 <= j < 12 ==> (#[trigger] ep[j]).slot() == j,
                forall|j: int| 0 <= j < 12 ==> (#[trigger] eo[j]) == 0,
            decreases 8 - i,
        {
            let fac = CORNER_FACELETS[i];

            let mut ori: usize = 0;
            while ori < 3
                invariant
                    ori <= 3,
                    fac == CORNER_FACELETS[i as int],
                    i < 8,
                    forall|k: int| 0 <= k < ori ==> !is_up_or_down(faces@[fac[k] as int]),
                    ori < 3 ==> corner_twist(faces@, i as int) >= ori,
                    ori == 3 ==> corner_twist(faces@, i as int) == 3,
                ensures
                    ori == corner_twist(faces@, i as int),
                decreases 3 - ori,
            {
                if faces.state[fac[ori]] == Colour::U || faces.state[fac[ori]] == Colour::D {
                    break;
                }
                ori += 1;
            }

            let col1 = faces.state[fac[(ori + 1) % 3]];
            let col2 = faces.state[fac[(ori + 2) % 3]];

            match lookup_corner(col1, col2) {
                Some(corner) => {
                    cp[i] = corner;
                    co[i] = ori as u8;
                },
                None => {},
            }
            i += 1;
        }

        let mut i: usize = 0;
        while i < 12
            invariant
                i <= 12,
                forall|j: int| 0 <= j < 8 ==> (#[trigger] cp[j]).slot() == cubie_of(faces@).cp[j],
                forall|j: int| 0 <= j < 8 ==> (#[trigger] co[j]) as int == cubie_of(faces@).co[j],
                forall|j: int| 0 <= j < 8 ==> (#[trigger] co[j]) <= 3,
                forall|j: int| 0 <= j < i ==> (#[trigger] ep[j]).slot() == cubie_of(faces@).ep[j],
                forall|j: int| 0 <= j < i ==> (#[trigger] eo[j]) as int == cubie_of(faces@).eo[j],
                forall|j: int| 0 <= j < i ==> (#[trigger] eo[j]) <= 1,
                forall|j: int| i <= j < 12 ==> (#[trigger] ep[j]).slot() == j,
                forall|j: int| i <= j < 12 ==> (#[trigger] eo[j]) == 0,
            decreases 12 - i,
        {
            let fac = EDGE_FACELETS[i];
            match lookup_edge(faces.state[fac[0]], faces.state[fac[1]]) {
                Some(found) => {
                    ep[i] = found.0;
                    eo[i] = found.1;
                },
                None => {},
            }
            i += 1;
        }

        let cube = CubieCube { cp, co, ep, eo };
        assert(cube@.cp =~= cubie_of(faces@).cp);
        assert(cube@.co =~= cubie_of(faces@).co);
        assert(cube@.ep =~= cubie_of(faces@).ep);
        assert(cube@.eo =~= cubie_of(faces@).eo);
        cube
    }
}

/// The stickers after a move: the stickers are read as cubies, the cubies
/// are moved, and the result is painted.
pub open spec fn turn_facelets(faces: Seq<Colour>, action: Move) -> Seq<Colour> {
    facelets_of(cubie_of(faces).apply_move(action))
}

/// The stickers after a sequence of moves, applied in order.
pub open spec fn turn_facelets_all(faces: Seq<Colour>, actions: Seq<Move>) -> Seq<Colour>
    decreases actions.len(),
{
    if actions.len() == 0 {
        faces
    } else {
        turn_facelets(turn_facelets_all(faces, actions.drop_last()), actions.last())
    }
}

/// Whatever the stickers, the cubies read off them can be composed with
/// other cubes: no twist is above 3 and no flip above 1.
pub proof fn lemma_cubie_of_wf(faces: Seq<Colour>)
    ensures
        cubie_of(faces).wf(),
{
    let cube = cubie_of(faces);
    assert forall|i: int| 0 <= i < 8 implies 0 <= #[trigger] cube.cp[i] < 8 by {
        lemma_find_corner_range(
            faces[CORNER_FACELETS[i][(corner_twist(faces, i) + 1) % 3] as int],
            faces[CORNER_FACELETS[i][(corner_twist(faces, i) + 2) % 3] as int],
            0,
        );
    }
    assert forall|i: int| 0 <= i < 12 implies 0 <= #[trigger] cube.ep[i] < 12 by {
        lemma_find_edge_range(
            faces[EDGE_FACELETS[i][0] as int],
            faces[EDGE_FACELETS[i][1] as int],
            0,
        );
    }
    assert forall|i: int| 0 <= i < 12 implies 0 <= #[trigger] cube.eo[i] < 2 by {
        lemma_find_edge_range(
            faces[EDGE_FACELETS[i][0] as int],
            faces[EDGE_FACELETS[i][1] as int],
            0,
        );
    }
}

proof fn lemma_find_corner_range(second: Colour, third: Colour, from: int)
    requires
        0 <= from,
    ensures
        find_corner(second, third, from) matches Some(corner) ==> from <= corner < 8
            && CORNER_COLOURS[corner][1] == second && CORNER_COLOURS[corner][2] == third,
    decreases 8 - from,
{
    if from < 8 {
        lemma_find_corner_range(second, third, from + 1);
    }
}

proof fn lemma_find_edge_range(first: Colour, second: Colour, from: int)
    requires
        0 <= from,
    ensures
        find_edge(first, second, from) matches Some(found) ==> from <= found.0 < 12 && 0
            <= found.1 < 2,
    decreases 12 - from,
{
    if from < 12 {
        lemma_find_edge_range(first, second, from + 1);
    }
}

impl FaceletCube {
    /// Applies one move.
    pub fn apply_move(self, action: &Move) -> (faces: FaceletCube)
        ensures
            faces@ == turn_facelets(self@, *action),
    {
        FaceletCube::from_cubie(CubieCube::from_facelets(self).apply_move(action))
    }

    /// Applies a sequence of moves, in order.
    pub fn apply_moves(self, actions: &Vec<Move>) -> (faces: FaceletCube)
        ensures
            faces@ == turn_facelets_all(self@, actions@),
    {
        let mut faces = self;
        let mut i: usize = 0;
        while i < actions.len()
            invariant
                i <= actions.len(),
                faces@ == turn_facelets_all(self@, actions@.take(i as int)),
            decreases actions.len() - i,
        {
            proof {
                let next = actions@.take(i as int + 1);
                assert(next.drop_last() =~= actions@.take(i as int));
                assert(next.last() == actions@[i as int]);
            }
            faces = faces.apply_move(&actions[i]);
            i += 1;
        }
        assert(actions@.take(i as int) =~= actions@);
        faces
    }

    /// The stickers that `total_moves` moves, each picked at random, make
    /// of the solved cube: the stickers of the cube that those moves make of
    /// the solved cube.
    pub fn random(total_moves: u8) -> (faces: FaceletCube)
        ensures
            exists|actions: Seq<Move>|
                actions.len() == total_moves && #[trigger] turn_facelets_all(
                    solved_facelets(),
                    actions,
                ) == faces@ && faces@ == facelets_of(CubieState::solved().apply_moves(actions)),
    {
        let mut rng = rand::thread_rng();
        let available = Move::available();
        let mut faces = FaceletCube::solved();
        let ghost mut done = Seq::<Move>::empty();
        let mut n: u8 = 0;
        while n < total_moves
            invariant
                n <= total_moves,
                done.len() == n,
                faces@ == turn_facelets_all(solved_facelets(), done),
            decreases total_moves - n,
        {
            let picked = choose_move(&available, &mut rng);
            match picked {
                Some(action) => {
                    proof {
                        assert(done.push(action).drop_last() =~= done);
                        done = done.push(action);
                    }
                    faces = faces.apply_move(&action);
                },
                None => {},
            }
            n += 1;
        }
        proof {
            crate::conversion_laws::lemma_scrambled_facelets(done);
        }
        faces
    }
}

impl From<CubieCube> for FaceletCube {
    fn from(cube: CubieCube) -> (faces: FaceletCube) {
        let faces = FaceletCube::from_cubie(cube);
        proof {
            let chosen = choose|chosen: FaceletCube| chosen@ == facelets_of(cube@);
            assert(faces.state =~= chosen.state);
        }
        faces
    }
}

impl vstd::std_specs::convert::FromSpecImpl<CubieCube> for FaceletCube {
    open spec fn obeys_from_spec() -> bool {
        true
    }

    open spec fn from_spec(cube: CubieCube) -> FaceletCube {
        choose|faces: FaceletCube| faces@ == facelets_of(cube@)
    }
}

impl From<FaceletCube> for CubieCube {
    fn from(faces: FaceletCube) -> (cube: CubieCube) {
        let cube = CubieCube::from_facelets(faces);
        proof {
            let chosen = choose|chosen: CubieCube| chosen@ == cubie_of(faces@);
            lemma_view_injective(cube, chosen);
        }
        cube
    }
}

impl vstd::std_specs::convert::FromSpecImpl<FaceletCube> for CubieCube {
    open spec fn obeys_from_spec() -> bool {
        true
    }

    open spec fn from_spec(faces: FaceletCube) -> CubieCube {
        choose|cube: CubieCube| cube@ == cubie_of(faces@)
    }
}

} // verus!
