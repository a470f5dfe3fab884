//! What holds of the conversion between stickers and cubies: every sticker
//! of the painted cube shows the colour of the cubie behind it, and reading
//! the cubies off a painted cube gives back the cube that was painted.

use vstd::prelude::*;

use crate::conversion::{
    corner_shown,
    corner_twist,
    cubie_of,
    edge_shown,
    facelets_of,
    find_corner,
    find_edge,
    is_up_or_down,
    paint_corner,
    paint_corners,
    paint_edge,
    paint_edges,
};
use crate::cubie_cube::CubieState;
use crate::facelet_cube::{
    solved_facelets,
    Colour,
    CORNER_COLOURS,
    CORNER_FACELETS,
    EDGE_COLOURS,
    EDGE_FACELETS,
};

verus! {

/// Whether a position holds a sticker of one of the first `n` corner slots.
pub open spec fn on_corner(p: int, n: int) -> bool {
    exists|i: int, j: int| 0 <= i < n && 0 <= j < 3 && #[trigger] CORNER_FACELETS[i][j] == p
}

/// Whether a position holds a sticker of one of the first `n` edge slots.
pub open spec fn on_edge(p: int, n: int) -> bool {
    exists|i: int, j: int| 0 <= i < n && 0 <= j < 2 && #[trigger] EDGE_FACELETS[i][j] == p
}

/// The position of the centre sticker of a face.
pub open spec fn centre(face: int) -> int {
    9 * face + 4
}

/// No position holds two stickers: the corner stickers, the edge stickers
/// and the six centres are fifty-four different positions.
pub proof fn lemma_places_distinct()
    ensures
        forall|i: int, j: int| 0 <= i < 8 && 0 <= j < 3 ==> 0 <= #[trigger] CORNER_FACELETS[i][j] < 54,
        forall|i: int, j: int| 0 <= i < 12 && 0 <= j < 2 ==> 0 <= #[trigger] EDGE_FACELETS[i][j] < 54,
        forall|i: int, j: int, k: int, l: int|
            0 <= i < 8 && 0 <= j < 3 && 0 <= k < 8 && 0 <= l < 3 && (i != k || j != l)
                ==> #[trigger] CORNER_FACELETS[i][j] != #[trigger] CORNER_FACELETS[k][l],
        forall|i: int, j: int, k: int, l: int|
            0 <= i < 12 && 0 <= j < 2 && 0 <= k < 12 && 0 <= l < 2 && (i != k || j != l)
                ==> #[trigger] EDGE_FACELETS[i][j] != #[trigger] EDGE_FACELETS[k][l],
        forall|i: int, j: int, k: int, l: int|
            0 <= i < 8 && 0 <= j < 3 && 0 <= k < 12 && 0 <= l < 2 ==> #[trigger] CORNER_FACELETS[i][j]
                != #[trigger] EDGE_FACELETS[k][l],
        forall|i: int, j: int, face: int|
            0 <= i < 8 && 0 <= j < 3 && 0 <= face < 6 ==> #[trigger] CORNER_FACELETS[i][j]
                != #[trigger] centre(face),
        forall|i: int, j: int, face: int|
            0 <= i < 12 && 0 <= j < 2 && 0 <= face < 6 ==> #[trigger] EDGE_FACELETS[i][j]
                != #[trigger] centre(face),
{
}

/// The stickers show the cube: every corner and edge slot has the colours
/// of its cubie, moved on by the cubie's twist or flip, and every centre
/// has the colour of its face.
pub open spec fn shows(faces: Seq<Colour>, cube: CubieState) -> bool {
    &&& faces.len() == 54
    &&& forall|face: int| 0 <= face < 6 ==> faces[#[trigger] centre(face)] == Colour::of_face(face)
    &&& forall|i: int, k: int|
        0 <= i < 8 && 0 <= k < 3 ==> faces[#[trigger] CORNER_FACELETS[i][(k + cube.co[i]) % 3] as int]
            == CORNER_COLOURS[cube.cp[i]][k]
    &&& forall|i: int, k: int|
        0 <= i < 12 && 0 <= k < 2 ==> faces[#[trigger] EDGE_FACELETS[i][(k + cube.eo[i]) % 2] as int]
            == EDGE_COLOURS[cube.ep[i]][k]
}

/// Painting the first `n` corners gives every one of them its colours and
/// leaves all other stickers alone.
pub proof fn lemma_corners_painted(faces: Seq<Colour>, cube: CubieState, n: nat)
    requires
        faces.len() == 54,
        cube.wf(),
        n <= 8,
    ensures
        paint_corners(faces, cube, n).len() == 54,
        forall|i: int, k: int|
            0 <= i < n && 0 <= k < 3 ==> paint_corners(faces, cube, n)[#[trigger] CORNER_FACELETS[i][(
            k + cube.co[i]) % 3] as int] == CORNER_COLOURS[cube.cp[i]][k],
        forall|p: int|
            0 <= p < 54 && !on_corner(p, n as int) ==> #[trigger] paint_corners(faces, cube, n)[p]
                == faces[p],
    decreases n,
{
    lemma_places_distinct();
    if n > 0 {
        let before = paint_corners(faces, cube, (n - 1) as nat);
        let after = paint_corners(faces, cube, n);
        lemma_corners_painted(faces, cube, (n - 1) as nat);
        let m = n - 1;
        let twist = cube.co[m];
        assert(0 <= twist < 6);
        assert(0 <= cube.cp[m] < 8);
        assert(after == paint_corner(before, cube, m));
        assert forall|i: int, k: int| 0 <= i < n && 0 <= k < 3 implies after[#[trigger] CORNER_FACELETS[i][(
        k + cube.co[i]) % 3] as int] == CORNER_COLOURS[cube.cp[i]][k] by {
            assert(0 <= cube.co[i] < 6);
            let j = (k + cube.co[i]) % 3;
            if i < m {
                assert(before[CORNER_FACELETS[i][j] as int] == CORNER_COLOURS[cube.cp[i]][k]);
                assert(CORNER_FACELETS[i][j] != CORNER_FACELETS[m][twist % 3]);
                assert(CORNER_FACELETS[i][j] != CORNER_FACELETS[m][(1 + twist) % 3]);
                assert(CORNER_FACELETS[i][j] != CORNER_FACELETS[m][(2 + twist) % 3]);
            } else {
                assert(CORNER_FACELETS[m][twist % 3] != CORNER_FACELETS[m][(1 + twist) % 3]);
                assert(CORNER_FACELETS[m][twist % 3] != CORNER_FACELETS[m][(2 + twist) % 3]);
                assert(CORNER_FACELETS[m][(1 + twist) % 3] != CORNER_FACELETS[m][(2 + twist)
                    % 3]);
            }
        }
        assert forall|p: int| 0 <= p < 54 && !on_corner(p, n as int) implies #[trigger] after[p]
            == faces[p] by {
            assert(!on_corner(p, m)) by {
                if on_corner(p, m) {
                    let (i, j) = choose|i: int, j: int|
                        0 <= i < m && 0 <= j < 3 && #[trigger] CORNER_FACELETS[i][j] == p;
                    assert(CORNER_FACELETS[i][j] == p);
                }
            }
            assert(CORNER_FACELETS[m][twist % 3] != p);
            assert(CORNER_FACELETS[m][(1 + twist) % 3] != p);
            assert(CORNER_FACELETS[m][(2 + twist) % 3] != p);
        }
    }
}

/// Painting the first `n` edges gives every one of them its colours and
/// leaves all other stickers alone.
pub proof fn lemma_edges_painted(faces: Seq<Colour>, cube: CubieState, n: nat)
    requires
        faces.len() == 54,
        cube.wf(),
        n <= 12,
    ensures
        paint_edges(faces, cube, n).len() == 54,
        forall|i: int, k: int|
            0 <= i < n && 0 <= k < 2 ==> paint_edges(faces, cube, n)[#[trigger] EDGE_FACELETS[i][(
            k + cube.eo[i]) % 2] as int] == EDGE_COLOURS[cube.ep[i]][k],
        forall|p: int|
            0 <= p < 54 && !on_edge(p, n as int) ==> #[trigger] paint_edges(faces, cube, n)[p]
                == faces[p],
    decreases n,
{
    lemma_places_distinct();
    if n > 0 {
        let before = paint_edges(faces, cube, (n - 1) as nat);
        let after = paint_edges(faces, cube, n);
        lemma_edges_painted(faces, cube, (n - 1) as nat);
        let m = n - 1;
        let flip = cube.eo[m];
        assert(0 <= flip < 2);
        assert(0 <= cube.ep[m] < 12);
        assert(after == paint_edge(before, cube, m));
        assert forall|i: int, k: int| 0 <= i < n && 0 <= k < 2 implies after[#[trigger] EDGE_FACELETS[i][(
        k + cube.eo[i]) % 2] as int] == EDGE_COLOURS[cube.ep[i]][k] by {
            assert(0 <= cube.eo[i] < 2);
            let j = (k + cube.eo[i]) % 2;
            if i < m {
                assert(before[EDGE_FACELETS[i][j] as int] == EDGE_COLOURS[cube.ep[i]][k]);
                assert(EDGE_FACELETS[i][j] != EDGE_FACELETS[m][flip % 2]);
                assert(EDGE_FACELETS[i][j] != EDGE_FACELETS[m][(1 + flip) % 2]);
            } else {
                assert(EDGE_FACELETS[m][flip % 2] != EDGE_FACELETS[m][(1 + flip) % 2]);
            }
        }
        assert forall|p: int| 0 <= p < 54 && !on_edge(p, n as int) implies #[trigger] after[p]
            == faces[p] by {
            assert(!on_edge(p, m)) by {
                if on_edge(p, m) {
                    let (i, j) = choose|i: int, j: int|
                        0 <= i < m && 0 <= j < 2 && #[trigger] EDGE_FACELETS[i][j] == p;
                    assert(EDGE_FACELETS[i][j] == p);
                }
            }
            assert(EDGE_FACELETS[m][flip % 2] != p);
            assert(EDGE_FACELETS[m][(1 + flip) % 2] != p);
        }
    }
}

/// The stickers painted for a cube show that cube.
pub proof fn lemma_facelets_show_cube(cube: CubieState)
    requires
        cube.wf(),
    ensures
        shows(facelets_of(cube), cube),
{
    lemma_places_distinct();
    let blank = solved_facelets();
    let cornered = paint_corners(blank, cube, 8);
    let faces = facelets_of(cube);
    lemma_corners_painted(blank, cube, 8);
    lemma_edges_painted(cornered, cube, 12);
    assert forall|face: int| 0 <= face < 6 implies faces[#[trigger] centre(face)]
        == Colour::of_face(face) by {
        let p = centre(face);
        assert(!on_edge(p, 12)) by {
            if on_edge(p, 12) {
                let (i, j) = choose|i: int, j: int|
                    0 <= i < 12 && 0 <= j < 2 && #[trigger] EDGE_FACELETS[i][j] == p;
                assert(EDGE_FACELETS[i][j] != centre(face));
            }
        }
        assert(!on_corner(p, 8)) by {
            if on_corner(p, 8) {
                let (i, j) = choose|i: int, j: int|
                    0 <= i < 8 && 0 <= j < 3 && #[trigger] CORNER_FACELETS[i][j] == p;
                assert(CORNER_FACELETS[i][j] != centre(face));
            }
        }
        assert(faces[p] == cornered[p]);
        assert(cornered[p] == blank[p]);
    }
    assert forall|i: int, k: int| 0 <= i < 8 && 0 <= k < 3 implies faces[#[trigger] CORNER_FACELETS[i][(
    k + cube.co[i]) % 3] as int] == CORNER_COLOURS[cube.cp[i]][k] by {
        assert(0 <= cube.co[i] < 6);
        let j = (k + cube.co[i]) % 3;
        let p = CORNER_FACELETS[i][j] as int;
        assert(!on_edge(p, 12)) by {
            if on_edge(p, 12) {
                let (e, l) = choose|e: int, l: int|
                    0 <= e < 12 && 0 <= l < 2 && #[trigger] EDGE_FACELETS[e][l] == p;
                assert(CORNER_FACELETS[i][j] != EDGE_FACELETS[e][l]);
            }
        }
        assert(faces[p] == cornered[p]);
    }
}

/// The second and third colour of a corner tell it from all others.
pub proof fn lemma_find_own_corner(corner: int, from: int)
    requires
        0 <= from <= corner < 8,
    ensures
        find_corner(CORNER_COLOURS[corner][1], CORNER_COLOURS[corner][2], from) == Some(corner),
    decreases corner - from,
{
    if from < corner {
        assert(!(CORNER_COLOURS[from][1] == CORNER_COLOURS[corner][1] && CORNER_COLOURS[from][2]
            == CORNER_COLOURS[corner][2]));
        lemma_find_own_corner(corner, from + 1);
    }
}

/// The two colours of an edge, in either order, tell it from all others
/// and tell whether it is flipped.
pub proof fn lemma_find_own_edge(edge: int, flip: int, from: int)
    requires
        0 <= from <= edge < 12,
        0 <= flip < 2,
    ensures
        find_edge(EDGE_COLOURS[edge][flip], EDGE_COLOURS[edge][1 - flip], from) == Some(
            (edge, flip),
        ),
    decreases edge - from,
{
    let first = EDGE_COLOURS[edge][flip];
    let second = EDGE_COLOURS[edge][1 - flip];
    if from < edge {
        assert(!(EDGE_COLOURS[from][0] == first && EDGE_COLOURS[from][1] == second));
        assert(!(EDGE_COLOURS[from][1] == first && EDGE_COLOURS[from][0] == second));
        lemma_find_own_edge(edge, flip, from + 1);
    } else {
        assert(EDGE_COLOURS[edge][0] != EDGE_COLOURS[edge][1]);
    }
}

/// Stickers that show an unmirrored cube are read back as that cube.
pub proof fn lemma_shown_cube_is_read(faces: Seq<Colour>, cube: CubieState)
    requires
        cube.wf(),
        cube.unmirrored(),
        shows(faces, cube),
    ensures
        cubie_of(faces) == cube,
{
    let read = cubie_of(faces);
    assert forall|i: int| 0 <= i < 8 implies read.cp[i] == cube.cp[i] && read.co[i]
        == cube.co[i] by {
        let twist = cube.co[i];
        let corner = cube.cp[i];
        assert(0 <= twist < 3);
        assert(0 <= corner < 8);
        assert(faces[CORNER_FACELETS[i][(0 + twist) % 3] as int] == CORNER_COLOURS[corner][0]);
        assert(faces[CORNER_FACELETS[i][(1 + twist) % 3] as int] == CORNER_COLOURS[corner][1]);
        assert(faces[CORNER_FACELETS[i][(2 + twist) % 3] as int] == CORNER_COLOURS[corner][2]);
        assert(is_up_or_down(CORNER_COLOURS[corner][0]));
        assert(!is_up_or_down(CORNER_COLOURS[corner][1]));
        assert(!is_up_or_down(CORNER_COLOURS[corner][2]));
        assert(corner_twist(faces, i) == twist);
        lemma_find_own_corner(corner, 0);
        assert(corner_shown(faces, i) == Some(corner));
    }
    assert forall|i: int| 0 <= i < 12 implies read.ep[i] == cube.ep[i] && read.eo[i]
        == cube.eo[i] by {
        let flip = cube.eo[i];
        let edge = cube.ep[i];
        assert(0 <= flip < 2);
        assert(0 <= edge < 12);
        assert(faces[EDGE_FACELETS[i][(0 + flip) % 2] as int] == EDGE_COLOURS[edge][0]);
        assert(faces[EDGE_FACELETS[i][(1 + flip) % 2] as int] == EDGE_COLOURS[edge][1]);
        lemma_find_own_edge(edge, flip, 0);
        assert(edge_shown(faces, i) == Some((edge, flip)));
    }
    assert(read.cp =~= cube.cp);
    assert(read.co =~= cube.co);
    assert(read.ep =~= cube.ep);
    assert(read.eo =~= cube.eo);
}

/// Painting an unmirrored cube and reading the stickers gives the cube
/// back.
pub proof fn lemma_facelet_round_trip(cube: CubieState)
    requires
        cube.wf(),
        cube.unmirrored(),
    ensures
        cubie_of(facelets_of(cube)) == cube,
{
    lemma_facelets_show_cube(cube);
    lemma_shown_cube_is_read(facelets_of(cube), cube);
}

/// Moving the stickers of an unmirrored cube is moving the cube: the
/// stickers after a sequence of moves are those of the cube after the same
/// moves.
pub proof fn lemma_turn_facelets_is_apply_moves(cube: CubieState, actions: Seq<crate::moves::Move>)
    requires
        cube.wf(),
        cube.unmirrored(),
    ensures
        crate::conversion::turn_facelets_all(facelets_of(cube), actions) == facelets_of(
            cube.apply_moves(actions),
        ),
    decreases actions.len(),
{
    if actions.len() > 0 {
        lemma_turn_facelets_is_apply_moves(cube, actions.drop_last());
        crate::cube_laws::lemma_apply_moves_wf(cube, actions.drop_last());
        lemma_facelet_round_trip(cube.apply_moves(actions.drop_last()));
    }
}

/// Every position holds a sticker of a corner, of an edge, or a centre.
pub proof fn lemma_places_cover(p: int)
    requires
        0 <= p < 54,
    ensures
        on_corner(p, 8) || on_edge(p, 12) || exists|face: int|
            0 <= face < 6 && #[trigger] centre(face) == p,
{
    if p == 0 {
        assert(CORNER_FACELETS[2][0] == 0);
    } else if p == 1 {
        assert(EDGE_FACELETS[3][0] == 1);
    } else if p == 2 {
        assert(CORNER_FACELETS[3][0] == 2);
    } else if p == 3 {
        assert(EDGE_FACELETS[2][0] == 3);
    } else if p == 4 {
        assert(centre(0) == 4);
    } else if p == 5 {
        assert(EDGE_FACELETS[0][0] == 5);
    } else if p == 6 {
        assert(CORNER_FACELETS[1][0] == 6);
    } else if p == 7 {
        assert(EDGE_FACELETS[1][0] == 7);
    } else if p == 8 {
        assert(CORNER_FACELETS[0][0] == 8);
    } else if p == 9 {
        assert(CORNER_FACELETS[0][1] == 9);
    } else if p == 10 {
        assert(EDGE_FACELETS[0][1] == 10);
    } else if p == 11 {
        assert(CORNER_FACELETS[3][2] == 11);
    } else if p == 12 {
        assert(EDGE_FACELETS[8][1] == 12);
    } else if p == 13 {
        assert(centre(1) == 13);
    } else if p == 14 {
        assert(EDGE_FACELETS[11][1] == 14);
    } else if p == 15 {
        assert(CORNER_FACELETS[4][2] == 15);
    } else if p == 16 {
        assert(EDGE_FACELETS[4][1] == 16);
    } else if p == 17 {
        assert(CORNER_FACELETS[7][1] == 17);
    } else if p == 18 {
        assert(CORNER_FACELETS[1][1] == 18);
    } else if p == 19 {
        assert(EDGE_FACELETS[1][1] == 19);
    } else if p == 20 {
        assert(CORNER_FACELETS[0][2] == 20);
    } else if p == 21 {
        assert(EDGE_FACELETS[9][0] == 21);
    } else if p == 22 {
        assert(centre(2) == 22);
    } else if p == 23 {
        assert(EDGE_FACELETS[8][0] == 23);
    } else if p == 24 {
        assert(CORNER_FACELETS[5][2] == 24);
    } else if p == 25 {
        assert(EDGE_FACELETS[5][1] == 25);
    } else if p == 26 {
        assert(CORNER_FACELETS[4][1] == 26);
    } else if p == 27 {
        assert(CORNER_FACELETS[5][0] == 27);
    } else if p == 28 {
        assert(EDGE_FACELETS[5][0] == 28);
    } else if p == 29 {
        assert(CORNER_FACELETS[4][0] == 29);
    } else if p == 30 {
        assert(EDGE_FACELETS[6][0] == 30);
    } else if p == 31 {
        assert(centre(3) == 31);
    } else if p == 32 {
        assert(EDGE_FACELETS[4][0] == 32);
    } else if p == 33 {
        assert(CORNER_FACELETS[6][0] == 33);
    } else if p == 34 {
        assert(EDGE_FACELETS[7][0] == 34);
    } else if p == 35 {
        assert(CORNER_FACELETS[7][0] == 35);
    } else if p == 36 {
        assert(CORNER_FACELETS[2][1] == 36);
    } else if p == 37 {
        assert(EDGE_FACELETS[2][1] == 37);
    } else if p == 38 {
        assert(CORNER_FACELETS[1][2] == 38);
    } else if p == 39 {
        assert(EDGE_FACELETS[10][1] == 39);
    } else if p == 40 {
        assert(centre(4) == 40);
    } else if p == 41 {
        assert(EDGE_FACELETS[9][1] == 41);
    } else if p == 42 {
        assert(CORNER_FACELETS[6][2] == 42);
    } else if p == 43 {
        assert(EDGE_FACELETS[6][1] == 43);
    } else if p == 44 {
        assert(CORNER_FACELETS[5][1] == 44);
    } else if p == 45 {
        assert(CORNER_FACELETS[3][1] == 45);
    } else if p == 46 {
        assert(EDGE_FACELETS[3][1] == 46);
    } else if p == 47 {
        assert(CORNER_FACELETS[2][2] == 47);
    } else if p == 48 {
        assert(EDGE_FACELETS[11][0] == 48);
    } else if p == 49 {
        assert(centre(5) == 49);
    } else if p == 50 {
        assert(EDGE_FACELETS[10][0] == 50);
    } else if p == 51 {
        assert(CORNER_FACELETS[7][2] == 51);
    } else if p == 52 {
        assert(EDGE_FACELETS[7][1] == 52);
    } else if p == 53 {
        assert(CORNER_FACELETS[6][1] == 53);
    }
}

/// The stickers that show a cube are determined by the cube.
pub proof fn lemma_shows_one(first: Seq<Colour>, second: Seq<Colour>, cube: CubieState)
    requires
        cube.wf(),
        shows(first, cube),
        shows(second, cube),
    ensures
        first == second,
{
    assert forall|p: int| 0 <= p < 54 implies first[p] == second[p] by {
        lemma_places_cover(p);
        if on_corner(p, 8) {
            let (i, j) = choose|i: int, j: int|
                0 <= i < 8 && 0 <= j < 3 && #[trigger] CORNER_FACELETS[i][j] == p;
            let twist = cube.co[i];
            assert(0 <= twist < 6);
            let k = (j + 6 - twist) % 3;
            assert((k + twist) % 3 == j);
            assert(first[CORNER_FACELETS[i][(k + cube.co[i]) % 3] as int]
                == CORNER_COLOURS[cube.cp[i]][k]);
            assert(second[CORNER_FACELETS[i][(k + cube.co[i]) % 3] as int]
                == CORNER_COLOURS[cube.cp[i]][k]);
        } else if on_edge(p, 12) {
            let (i, j) = choose|i: int, j: int|
                0 <= i < 12 && 0 <= j < 2 && #[trigger] EDGE_FACELETS[i][j] == p;
            let flip = cube.eo[i];
            assert(0 <= flip < 2);
            let k = (j + 2 - flip) % 2;
            assert((k + flip) % 2 == j);
            assert(first[EDGE_FACELETS[i][(k + cube.eo[i]) % 2] as int]
                == EDGE_COLOURS[cube.ep[i]][k]);
            assert(second[EDGE_FACELETS[i][(k + cube.eo[i]) % 2] as int]
                == EDGE_COLOURS[cube.ep[i]][k]);
        } else {
            let face = choose|face: int| 0 <= face < 6 && #[trigger] centre(face) == p;
            assert(first[centre(face)] == Colour::of_face(face));
            assert(second[centre(face)] == Colour::of_face(face));
        }
    }
    assert(first =~= second);
}

/// The stickers of the solved cube are those painted for the solved cube.
pub proof fn lemma_solved_facelets()
    ensures
        facelets_of(CubieState::solved()) == solved_facelets(),
{
    let solved = CubieState::solved();
    let blank = solved_facelets();
    lemma_facelets_show_cube(solved);
    assert(shows(blank, solved)) by {
        assert forall|i: int, k: int| 0 <= i < 8 && 0 <= k < 3 implies blank[#[trigger] CORNER_FACELETS[i][(
        k + solved.co[i]) % 3] as int] == CORNER_COLOURS[solved.cp[i]][k] by {
            assert(solved.co[i] == 0 && solved.cp[i] == i);
        }
        assert forall|i: int, k: int| 0 <= i < 12 && 0 <= k < 2 implies blank[#[trigger] EDGE_FACELETS[i][(
        k + solved.eo[i]) % 2] as int] == EDGE_COLOURS[solved.ep[i]][k] by {
            assert(solved.eo[i] == 0 && solved.ep[i] == i);
        }
    }
    lemma_shows_one(facelets_of(solved), blank, solved);
}

/// The stickers after moves on the solved stickers are those of the cube
/// that the moves make of the solved cube.
pub proof fn lemma_scrambled_facelets(actions: Seq<crate::moves::Move>)
    ensures
        crate::conversion::turn_facelets_all(solved_facelets(), actions) == facelets_of(
            CubieState::solved().apply_moves(actions),
        ),
{
    lemma_solved_facelets();
    lemma_turn_facelets_is_apply_moves(CubieState::solved(), actions);
}

} // verus!
