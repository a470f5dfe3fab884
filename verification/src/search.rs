//! The search of one phase: a breadth-first search from both ends, forward
//! from the cube at hand and backward from the solved cube, that stops as
//! soon as the two sides have reached the same phase id.

use std::collections::HashMap;
use std::collections::VecDeque;
use vstd::prelude::*;

use crate::congruence::search_is_exact;
use crate::cubie_cube::{CubieCube, CubieState};
use crate::key::{lemma_key_injective, lemma_pack_bound, lemma_phase_id_fits, phase_key, to_phase_key};
use crate::moves::{inverse_path, Move};
use crate::phase::{get_permitted_moves, phase_id, to_phase_id, Phase};
use crate::search_depth::{
    layered,
    lemma_answer_is_short,
    lemma_layered_finish,
    lemma_layered_init,
    lemma_layered_insert,
    lemma_layered_pop,
    lemma_layered_skip,
};
use crate::search_model::{expand, first_frontier, lemma_search_answer, popped, search_answer};
use crate::search_proof::{
    frontier_of,
    lemma_expand_done,
    lemma_expand_insert,
    lemma_expand_meet,
    lemma_expand_skip,
    lemma_popped,
    lemma_search_exhausted,
    lemma_search_finish,
    lemma_search_init,
    lemma_search_insert,
    lemma_search_meet,
    lemma_search_pop,
    lemma_search_skip,
    lemma_tracks_exhausted,
    lemma_tracks_found,
    lemma_tracks_start,
    lemma_tracks_step,
    next_history,
    search_inv,
    tracks,
};

verus! {

/// The side from which a state was reached.
#[derive(Debug, Copy, Clone, Hash, PartialEq, Eq, Structural)]
pub enum QueueDirection {
    Forward,
    Backward,
}

impl QueueDirection {
    /// The other side.
    pub open spec fn spec_opposite(self) -> QueueDirection {
        match self {
            QueueDirection::Forward => QueueDirection::Backward,
            QueueDirection::Backward => QueueDirection::Forward,
        }
    }

    /// The other side.
    #[verifier::when_used_as_spec(spec_opposite)]
    pub fn opposite(self) -> (other: QueueDirection)
        ensures
            other == self.spec_opposite(),
    {
        match self {
            QueueDirection::Forward => QueueDirection::Backward,
            QueueDirection::Backward => QueueDirection::Forward,
        }
    }
}

/// The cube at which a side of the search starts: the forward side at the
/// cube to be solved, the backward side at the solved cube.
pub open spec fn origin(start: CubieState, direction: QueueDirection) -> CubieState {
    match direction {
        QueueDirection::Forward => start,
        QueueDirection::Backward => CubieState::solved(),
    }
}

/// The key under which the search files a cube.
pub open spec fn cube_key(phase: Phase, cube: CubieState) -> u128 {
    phase_key(phase, phase_id(phase, cube)) as u128
}

/// The two sides meet: `forward` leads from `start`, and `backward` from
/// the solved cube, to cubes with the same phase id, by moves that the phase
/// permits.
pub open spec fn meets(phase: Phase, start: CubieState, forward: Seq<Move>, backward: Seq<Move>) -> bool {
    &&& phase.permits_all(forward)
    &&& phase.permits_all(backward)
    &&& phase_id(phase, start.apply_moves(forward)) == phase_id(
        phase,
        CubieState::solved().apply_moves(backward),
    )
}

/// `path` is what a search of `phase` from `start` may answer: a forward
/// path to a meeting point, followed by the inverse of a backward path to
/// it.
pub open spec fn is_meeting_path(phase: Phase, start: CubieState, path: Seq<Move>) -> bool {
    exists|forward: Seq<Move>, backward: Seq<Move>| #[trigger]
        meets(phase, start, forward, backward) && path == forward + inverse_path(backward)
}

/// For each phase id reached so far, and each side that reached it, the
/// path by which that side first reached it.
pub struct History {
    forward: HashMap<u128, Vec<Move>>,
    backward: HashMap<u128, Vec<Move>>,
}

impl View for History {
    type V = Map<(u128, QueueDirection), Seq<Move>>;

    closed spec fn view(&self) -> Map<(u128, QueueDirection), Seq<Move>> {
        Map::new(
            |entry: (u128, QueueDirection)| self.side(entry.1).contains_key(entry.0),
            |entry: (u128, QueueDirection)| self.side(entry.1)[entry.0]@,
        )
    }
}

impl History {
    spec fn side(&self, direction: QueueDirection) -> Map<u128, Vec<Move>> {
        match direction {
            QueueDirection::Forward => self.forward@,
            QueueDirection::Backward => self.backward@,
        }
    }

    /// The number of entries.
    pub closed spec fn size(&self) -> nat {
        self.forward@.len() + self.backward@.len()
    }

    /// A history without entries.
    pub fn new() -> (history: History)
        ensures
            history@ == Map::<(u128, QueueDirection), Seq<Move>>::empty(),
            history.size() == 0,
    {
        let history = History { forward: HashMap::new(), backward: HashMap::new() };
        assert(history@ =~= Map::<(u128, QueueDirection), Seq<Move>>::empty());
        history
    }

    /// Whether a side has reached an id.
    pub fn contains_key(&self, key: u128, direction: QueueDirection) -> (found: bool)
        ensures
            found == self@.contains_key((key, direction)),
    {
        match direction {
            QueueDirection::Forward => self.forward.contains_key(&key),
            QueueDirection::Backward => self.backward.contains_key(&key),
        }
    }

    /// The path by which a side reached an id, if it has.
    pub fn get(&self, key: u128, direction: QueueDirection) -> (path: Option<&Vec<Move>>)
        ensures
            match path {
                Some(p) => self@.contains_key((key, direction)) && p@ == self@[(key, direction)],
                None => !self@.contains_key((key, direction)),
            },
    {
        match direction {
            QueueDirection::Forward => self.forward.get(&key),
            QueueDirection::Backward => self.backward.get(&key),
        }
    }

    /// Records the path by which a side reached an id.
    pub fn insert(&mut self, key: u128, direction: QueueDirection, path: Vec<Move>)
        ensures
            final(self)@ == old(self)@.insert((key, direction), path@),
            !old(self)@.contains_key((key, direction)) ==> final(self).size() == old(self).size()
                + 1,
            final(self).size() <= 2 * usize::MAX,
    {
        let ghost before = self@;
        match direction {
            QueueDirection::Forward => {
                self.forward.insert(key, path);
            },
            QueueDirection::Backward => {
                self.backward.insert(key, path);
            },
        }
        let forward_len = self.forward.len();
        let backward_len = self.backward.len();
        assert(self@ =~= before.insert((key, direction), path@));
    }
}

/// The forward path to a meeting point, followed by the inverse of the
/// backward path to it.
pub fn build_move_seq(history: &History, state: u128) -> (moves: Vec<Move>)
    requires
        history@.contains_key((state, QueueDirection::Forward)),
        history@.contains_key((state, QueueDirection::Backward)),
    ensures
        moves@ == history@[(state, QueueDirection::Forward)] + inverse_path(
            history@[(state, QueueDirection::Backward)],
        ),
{
    let forward = history.get(state, QueueDirection::Forward).unwrap();
    let backward = history.get(state, QueueDirection::Backward).unwrap();
    let mut moves: Vec<Move> = Vec::new();
    let mut i: usize = 0;
    while i < forward.len()
        invariant
            i <= forward.len(),
            moves@ == forward@.take(i as int),
        decreases forward.len() - i,
    {
        moves.push(forward[i]);
        assert(moves@ =~= forward@.take(i as int + 1));
        i += 1;
    }
    assert(forward@.take(i as int) =~= forward@);
    let mut j: usize = backward.len();
    while j > 0
        invariant
            j <= backward.len(),
            moves@ == forward@ + inverse_path(backward@).take(backward.len() - j),
        decreases j,
    {
        j -= 1;
        moves.push(backward[j].inverse());
        assert(moves@ =~= forward@ + inverse_path(backward@).take(backward.len() - j));
    }
    assert(inverse_path(backward@).take(backward.len() as int) =~= inverse_path(backward@));
    moves
}

/// A fresh copy of a path.
fn copy_path(path: &Vec<Move>) -> (copy: Vec<Move>)
    ensures
        copy@ == path@,
{
    let mut copy: Vec<Move> = Vec::new();
    let mut i: usize = 0;
    while i < path.len()
        invariant
            i <= path.len(),
            copy@ == path@.take(i as int),
        decreases path.len() - i,
    {
        copy.push(path[i]);
        assert(copy@ =~= path@.take(i as int + 1));
        i += 1;
    }
    assert(path@.take(i as int) =~= path@);
    copy
}

/// The key that the search computes for a cube.
fn key_of(phase: Phase, cube: CubieCube) -> (key: u128)
    ensures
        key == cube_key(phase, cube@),
{
    let id = to_phase_id(phase, cube);
    proof {
        lemma_pack_bound(phase, id@, 40);
    }
    to_phase_key(phase, &id)
}

/// Two well-formed cubes are filed under the same key only if the phase
/// gives them the same id.
pub proof fn lemma_same_key_same_id(phase: Phase, a: CubieState, b: CubieState)
    requires
        a.wf(),
        b.wf(),
        cube_key(phase, a) == cube_key(phase, b),
    ensures
        phase_id(phase, a) == phase_id(phase, b),
{
    lemma_phase_id_fits(phase, a);
    lemma_phase_id_fits(phase, b);
    lemma_pack_bound(phase, phase_id(phase, a), 40);
    lemma_pack_bound(phase, phase_id(phase, b), 40);
    lemma_key_injective(phase, phase_id(phase, a), phase_id(phase, b));
}

/// States with the same phase id keep the same phase id under every
/// permitted move, as far as they can be reached from `from` by permitted
/// moves. Where this holds, the phase id of a cube decides where the moves
/// of the phase can take its id.
pub open spec fn congruent_from(phase: Phase, from: CubieState) -> bool {
    forall|a: Seq<Move>, b: Seq<Move>, action: Move|
        phase.permits_all(a) && phase.permits_all(b) && phase.permits(action) && phase_id(
            phase,
            from.apply_moves(a),
        ) == phase_id(phase, from.apply_moves(b)) ==> #[trigger] phase_id(
            phase,
            from.apply_moves(a).apply_move(action),
        ) == #[trigger] phase_id(phase, from.apply_moves(b).apply_move(action))
}

/// No two paths meet.
pub open spec fn never_meets(phase: Phase, start: CubieState) -> bool {
    forall|forward: Seq<Move>, backward: Seq<Move>|
        !#[trigger] meets(phase, start, forward, backward)
}

/// Searches one phase, breadth first from both ends: states are expanded
/// first come first, each by the moves of the phase in their order, and the
/// search ends as soon as one side reaches a phase id that the other side
/// has reached. The answer is the one that the search comes to when it is
/// followed step by step.
///
/// The answer, if there is one, leads from `current_cube` to a cube that
/// the backward side has reached from the solved cube; it is empty if
/// `current_cube` already has the id of the solved cube. Where the phase id
/// is a congruence, as it is on every balanced cube, the answer leads to a
/// cube with the id of the solved cube, it is longer by one move at most
/// than any two paths that meet are together, and there is no answer only
/// if no two paths meet at all.
pub fn bidirection_bfs(phase: Phase, current_cube: CubieCube) -> (answer: Option<Vec<Move>>)
    requires
        current_cube@.wf(),
    ensures
        search_answer(phase, current_cube@) == match answer {
            Some(path) => Some(path@),
            None => None::<Seq<Move>>,
        },
        phase_id(phase, current_cube@) == phase_id(phase, CubieState::solved()) ==> (answer
            matches Some(path) && path@.len() == 0),
        answer matches Some(path) ==> is_meeting_path(phase, current_cube@, path@),
        answer matches Some(path) ==> (search_is_exact(phase, current_cube@) ==> phase_id(
            phase,
            current_cube@.apply_moves(path@),
        ) == phase_id(phase, CubieState::solved())),
        answer is None && congruent_from(phase, current_cube@) && congruent_from(
            phase,
            CubieState::solved(),
        ) ==> never_meets(phase, current_cube@),
        answer is None && search_is_exact(phase, current_cube@) ==> never_meets(
            phase,
            current_cube@,
        ),
        answer matches Some(path) ==> (search_is_exact(phase, current_cube@) ==> forall|
            forward: Seq<Move>,
            backward: Seq<Move>,
        | #[trigger]
            meets(phase, current_cube@, forward, backward) ==> path@.len() <= forward.len()
                + backward.len() + 1),
{
    let ghost start = current_cube@;
    let solved = CubieCube::solved();
    let current_key = key_of(phase, current_cube);
    let goal_key = key_of(phase, solved);
    let ghost no_moves = Seq::<Move>::empty();

    if current_key == goal_key {
        proof {
            lemma_same_key_same_id(phase, start, CubieState::solved());
            assert(meets(phase, start, no_moves, no_moves));
            assert(no_moves =~= no_moves + inverse_path(no_moves));
            lemma_search_answer(phase, start, 0);
        }
        return Some(Vec::new());
    }
    let mut history = History::new();
    let mut queue: VecDeque<(CubieCube, QueueDirection)> = VecDeque::new();

    history.insert(current_key, QueueDirection::Forward, Vec::new());
    history.insert(goal_key, QueueDirection::Backward, Vec::new());

    queue.push_back((current_cube, QueueDirection::Forward));
    queue.push_back((solved, QueueDirection::Backward));

    let ghost mut place = lemma_search_init(phase, current_cube, solved, history@, queue@);
    let ghost mut done: int = 0;
    let ghost begun = first_frontier(phase, start);
    let ghost mut used: nat = 0;
    let ghost mut depth: nat = 0;
    proof {
        lemma_tracks_start(phase, current_cube, solved, history@, queue@);
        lemma_layered_init(phase, current_cube, solved, history@, queue@, place);
    }

    let moves = get_permitted_moves(phase);

    loop
        invariant
            start == current_cube@,
            phase_id(phase, start) != phase_id(phase, CubieState::solved()),
            moves@ == phase.moves(),
            history.size() <= 2 * usize::MAX,
            search_inv(phase, start, history@, queue@, place, done, None, 0),
            begun == first_frontier(phase, start),
            tracks(phase, begun, used, frontier_of(history@, queue@)),
            layered(phase, start, history@, queue@, place, done, None, 0, depth),
        decreases 2 * usize::MAX - history.size(), queue@.len(),
    {
        let ghost queue_before = queue@;
        let ghost now = frontier_of(history@, queue@);
        let (state, direction) = match queue.pop_front() {
            Some(item) => item,
            None => {
                proof {
                    assert(queue@ =~= Seq::<(CubieCube, QueueDirection)>::empty());
                    lemma_search_exhausted(phase, start, history@, place, done);
                    lemma_tracks_exhausted(phase, begun, used, now);
                    lemma_search_answer(phase, start, used + 1);
                }
                return None;
            },
        };
        let state_key = key_of(phase, state);
        let ghost size_before = history.size();
        let ghost rest = queue@;
        proof {
            lemma_layered_pop(phase, start, history@, queue_before, place, done, depth);
            lemma_search_pop(phase, start, history@, queue_before, place, done);
            depth = history@[(state_key, direction)].len();
            done = done + 1;
            lemma_popped(history@, queue_before);
        }
        let ghost whole = expand(phase, popped(now), state@, direction, 0);

        let mut i: usize = 0;
        while i < moves.len()
            invariant
                i <= moves.len(),
                start == current_cube@,
                phase_id(phase, start) != phase_id(phase, CubieState::solved()),
                moves@ == phase.moves(),
                state@.wf(),
                state_key == cube_key(phase, state@),
                history@.contains_key((state_key, direction)),
                history.size() <= 2 * usize::MAX,
                history.size() >= size_before,
                history.size() == size_before ==> queue@ == rest,
                search_inv(
                    phase,
                    start,
                    history@,
                    queue@,
                    place,
                    done,
                    Some((state@, direction)),
                    i as int,
                ),
                begun == first_frontier(phase, start),
                now.queue.len() > 0,
                now.queue[0] == (state@, direction),
                tracks(phase, begun, used, now),
                whole == expand(phase, popped(now), state@, direction, 0),
                whole == expand(phase, frontier_of(history@, queue@), state@, direction, i as nat),
                layered(
                    phase,
                    start,
                    history@,
                    queue@,
                    place,
                    done,
                    Some((state@, direction)),
                    i as int,
                    depth,
                ),
            decreases moves.len() - i,
        {
            let action = moves[i];
            let next_state = state.apply_move(&action);
            let next_key = key_of(phase, next_state);

            if history.contains_key(next_key, direction) {
                proof {
                    lemma_search_skip(
                        phase,
                        start,
                        history@,
                        queue@,
                        place,
                        done,
                        state@,
                        direction,
                        i as int,
                    );
                    lemma_expand_skip(
                        phase,
                        frontier_of(history@, queue@),
                        state@,
                        direction,
                        i as nat,
                    );
                    lemma_layered_skip(
                        phase,
                        start,
                        history@,
                        queue@,
                        place,
                        done,
                        state@,
                        direction,
                        i as int,
                        depth,
                    );
                }
            } else {
                let mut state_moves = copy_path(history.get(state_key, direction).unwrap());
                state_moves.push(action);
                let ghost before = history@;
                let ghost queue_before = queue@;
                history.insert(next_key, direction, state_moves);
                assert(history@ == next_history(phase, before, state@, direction, i as int));

                if history.contains_key(next_key, direction.opposite()) {
                    proof {
                        lemma_search_meet(
                            phase,
                            start,
                            before,
                            queue@,
                            place,
                            done,
                            state@,
                            direction,
                            i as int,
                        );
                        lemma_expand_meet(phase, before, queue@, state@, direction, i as nat);
                        lemma_tracks_found(
                            phase,
                            begun,
                            used,
                            now,
                            history@[(next_key, QueueDirection::Forward)] + inverse_path(
                                history@[(next_key, QueueDirection::Backward)],
                            ),
                        );
                        lemma_search_answer(phase, start, used + 1);
                        if search_is_exact(phase, start) {
                            assert forall|forward: Seq<Move>, backward: Seq<Move>| #[trigger]
                                meets(phase, start, forward, backward) implies history@[(
                                next_key,
                                QueueDirection::Forward,
                            )].len() + history@[(next_key, QueueDirection::Backward)].len()
                                <= forward.len() + backward.len() + 1 by {
                                lemma_answer_is_short(
                                    phase,
                                    start,
                                    before,
                                    queue@,
                                    place,
                                    done,
                                    state@,
                                    direction,
                                    i as int,
                                    depth,
                                    forward,
                                    backward,
                                );
                            }
                        }
                    }
                    return Some(build_move_seq(&history, next_key));
                }
                queue.push_back((next_state, direction));
                proof {
                    lemma_search_insert(
                        phase,
                        start,
                        before,
                        queue_before,
                        place,
                        done,
                        state@,
                        direction,
                        i as int,
                        (next_state, direction),
                    );
                    lemma_layered_insert(
                        phase,
                        start,
                        before,
                        queue_before,
                        place,
                        done,
                        state@,
                        direction,
                        i as int,
                        depth,
                        (next_state, direction),
                    );
                    place = place.insert((next_key, direction), done + queue_before.len());
                    lemma_expand_insert(
                        phase,
                        before,
                        queue_before,
                        state@,
                        direction,
                        i as nat,
                        (next_state, direction),
                    );
                }
            }
            i += 1;
        }
        proof {
            lemma_layered_finish(
                phase,
                start,
                history@,
                queue@,
                place,
                done,
                state@,
                direction,
                depth,
            );
            lemma_search_finish(phase, start, history@, queue@, place, done, state@, direction);
            lemma_expand_done(phase, frontier_of(history@, queue@), state@, direction);
            lemma_tracks_step(phase, begun, used, now, frontier_of(history@, queue@));
            used = used + 1;
        }
    }
}

} // verus!
