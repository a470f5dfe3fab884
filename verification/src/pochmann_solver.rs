//! The solver: the four phases run one after the other, each on the cube
//! that the phases before it have left, and the moves they find are tidied
//! into one solution.

use vstd::prelude::*;

use crate::congruence::{lemma_meeting_path_reaches_goal, search_is_exact};
use crate::cube_laws::{lemma_apply_moves_concat, lemma_apply_moves_wf, lemma_path_then_inverse};
use crate::cubie_cube::{CubieCube, CubieState};
use crate::moves::{inverse_path, Move};
use crate::phase::{lemma_pochmann_cube_injective, phase_id, Phase};
use crate::physical::lemma_moves_keep_balanced;
use crate::search::{bidirection_bfs, is_meeting_path, meets, never_meets};
use crate::search_model::search_answer;
use crate::simplify::{
    lemma_simplify_no_adjacent,
    lemma_simplify_same_effect,
    no_adjacent_same_face,
    simplify,
    simplify_multi_face_moves,
};

verus! {

/// `raw` is made of the answers of the first `stages` phases, in order,
/// each found on the cube that the answers before it lead to.
pub open spec fn staged(start: CubieState, raw: Seq<Move>, stages: nat) -> bool
    decreases stages,
{
    if stages == 0 {
        raw.len() == 0
    } else if stages > 4 {
        false
    } else {
        exists|head: Seq<Move>, tail: Seq<Move>|
            raw == head + tail && staged(start, head, (stages - 1) as nat)
                && #[trigger] is_meeting_path(
                Phase::sequence()[stages - 1],
                start.apply_moves(head),
                tail,
            )
    }
}

/// What the phases from the given one on add to `raw`, the answers of the
/// phases before: each phase searches from the cube that `raw` leads to,
/// and its answer is appended. There is no result if a phase has no
/// answer.
pub open spec fn stages_from(cube: CubieState, raw: Seq<Move>, stage: nat) -> Option<Seq<Move>>
    decreases 4 - stage,
{
    if stage >= 4 {
        Some(raw)
    } else {
        match search_answer(Phase::sequence()[stage as int], cube.apply_moves(raw)) {
            Some(path) => stages_from(cube, raw + path, stage + 1),
            None => None,
        }
    }
}

/// The solution of a cube: the answers of the four phases, one after the
/// other, in tidy form.
pub open spec fn solution_of(cube: CubieState) -> Option<Seq<Move>> {
    match stages_from(cube, Seq::<Move>::empty(), 0) {
        Some(raw) => Some(simplify(raw)),
        None => None,
    }
}

/// The search got stuck: the answers of some of the phases lead to a cube
/// from which the next phase has no two paths that meet.
pub open spec fn stuck(start: CubieState) -> bool {
    exists|stages: nat, raw: Seq<Move>|
        stages < 4 && #[trigger] staged(start, raw, stages) && never_meets(
            Phase::sequence()[stages as int],
            start.apply_moves(raw),
        )
}

/// What the last phase answers leads to the solved cube itself.
pub proof fn lemma_last_phase_solves(start: CubieState, path: Seq<Move>)
    requires
        start.wf(),
        is_meeting_path(Phase::Four, start, path),
    ensures
        start.apply_moves(path) == CubieState::solved(),
{
    let (forward, backward) = choose|forward: Seq<Move>, backward: Seq<Move>| #[trigger]
        meets(Phase::Four, start, forward, backward) && path == forward + inverse_path(backward);
    let solved = CubieState::solved();
    lemma_apply_moves_wf(start, forward);
    lemma_apply_moves_wf(solved, backward);
    lemma_pochmann_cube_injective(start.apply_moves(forward), solved.apply_moves(backward));
    lemma_apply_moves_concat(start, forward, inverse_path(backward));
    lemma_path_then_inverse(solved, backward);
}

/// The answers of all four phases, one after the other, lead to the solved
/// cube.
pub proof fn lemma_staged_solves(start: CubieState, raw: Seq<Move>)
    requires
        start.wf(),
        staged(start, raw, 4),
    ensures
        start.apply_moves(raw) == CubieState::solved(),
{
    let (head, tail) = choose|head: Seq<Move>, tail: Seq<Move>|
        raw == head + tail && staged(start, head, 3) && #[trigger] is_meeting_path(
            Phase::sequence()[3],
            start.apply_moves(head),
            tail,
        );
    lemma_apply_moves_wf(start, head);
    lemma_last_phase_solves(start.apply_moves(head), tail);
    lemma_apply_moves_concat(start, head, tail);
}

/// Each phase reaches its goal: on a balanced cube, the answers of the
/// first phases lead to a cube that has, in the last of them, the phase id
/// of the solved cube.
pub proof fn lemma_staged_reaches_goal(start: CubieState, raw: Seq<Move>, stages: nat)
    requires
        start.balanced(),
        1 <= stages <= 4,
        staged(start, raw, stages),
    ensures
        phase_id(Phase::sequence()[stages - 1], start.apply_moves(raw)) == phase_id(
            Phase::sequence()[stages - 1],
            CubieState::solved(),
        ),
{
    let phase = Phase::sequence()[stages - 1];
    let (head, tail) = choose|head: Seq<Move>, tail: Seq<Move>|
        raw == head + tail && staged(start, head, (stages - 1) as nat)
            && #[trigger] is_meeting_path(
            Phase::sequence()[stages - 1],
            start.apply_moves(head),
            tail,
        );
    lemma_moves_keep_balanced(start, head);
    lemma_meeting_path_reaches_goal(phase, start.apply_moves(head), tail);
    lemma_apply_moves_concat(start, head, tail);
}

/// Finds a sequence of moves that solves the cube. The sequence is the tidy
/// form of what the four phases answer. There is none only if a phase's
/// search runs out of states; on a balanced cube that happens only where
/// no two paths of that phase meet, and on the solved cube not at all.
pub fn solve(cube: &CubieCube) -> (solution: Option<Vec<Move>>)
    requires
        cube@.wf(),
    ensures
        solution_of(cube@) == match solution {
            Some(moves) => Some(moves@),
            None => None::<Seq<Move>>,
        },
        match solution {
            Some(moves) => {
                &&& exists|raw: Seq<Move>| #[trigger] staged(cube@, raw, 4) && moves@ == simplify(raw)
                &&& cube@.apply_moves(moves@) == CubieState::solved()
                &&& no_adjacent_same_face(moves@)
            },
            None => cube@ != CubieState::solved() && (cube@.balanced() ==> stuck(cube@)),
        },
        cube@ == CubieState::solved() ==> (solution matches Some(moves) && moves@.len() == 0),
        never_meets(Phase::One, cube@) ==> solution is None,
{
    let phases = Phase::iterator();
    let mut solution: Vec<Move> = Vec::new();

    let mut k: usize = 0;
    while k < 4
        invariant
            k <= 4,
            cube@.wf(),
            phases@ == Phase::sequence(),
            staged(cube@, solution@, k as nat),
            stages_from(cube@, Seq::<Move>::empty(), 0) == stages_from(
                cube@,
                solution@,
                k as nat,
            ),
            cube@ == CubieState::solved() ==> solution@.len() == 0,
            k > 0 ==> exists|forward: Seq<Move>, backward: Seq<Move>| #[trigger]
                meets(Phase::One, cube@, forward, backward),
        decreases 4 - k,
    {
        let phase = phases[k];
        let mut phase_moves = match bidirection_bfs(phase, cube.apply_moves(&solution)) {
            Some(moves) => {
                proof {
                    if k == 0 {
                        assert(solution@ =~= Seq::<Move>::empty());
                        let (forward, backward) = choose|
                            forward: Seq<Move>,
                            backward: Seq<Move>,
                        | #[trigger]
                            meets(Phase::One, cube@, forward, backward) && moves@ == forward
                                + inverse_path(backward);
                        assert(meets(Phase::One, cube@, forward, backward));
                    }
                }
                moves
            },
            None => {
                proof {
                    if cube@.balanced() {
                        lemma_moves_keep_balanced(cube@, solution@);
                        assert(search_is_exact(phase, cube@.apply_moves(solution@)));
                        assert(staged(cube@, solution@, k as nat));
                    }
                }
                return None;
            },
        };
        let ghost head = solution@;
        let ghost tail = phase_moves@;
        solution.append(&mut phase_moves);
        k += 1;
        assert(staged(cube@, solution@, k as nat)) by {
            assert(solution@ == head + tail);
            assert(is_meeting_path(Phase::sequence()[k - 1], cube@.apply_moves(head), tail));
        }
    }

    let tidy = simplify_multi_face_moves(&solution);
    proof {
        lemma_staged_solves(cube@, solution@);
        lemma_simplify_same_effect(cube@, solution@);
        lemma_simplify_no_adjacent(solution@);
    }
    Some(tidy)
}

} // verus!
