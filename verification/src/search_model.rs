//! The search of one phase, step by step: what it has recorded and queued,
//! what expanding one state makes of that, and what a given number of
//! expansions leads to. This fixes the answer of the search down to the
//! order in which moves are tried.

use vstd::prelude::*;

use crate::cubie_cube::CubieState;
use crate::moves::{inverse_path, Move};
use crate::phase::{phase_id, Phase};
use crate::search::{cube_key, QueueDirection};

verus! {

/// What a search has recorded and what it has still to expand.
pub struct Frontier {
    /// For each key and side, the path by which the side first reached a
    /// cube with that key.
    pub history: Map<(u128, QueueDirection), Seq<Move>>,
    /// The states that wait to be expanded, first come first.
    pub queue: Seq<(CubieState, QueueDirection)>,
}

/// How far a search has come.
pub enum Progress {
    /// The two sides have met; this is the answer.
    Found(Seq<Move>),
    /// The queue is empty and the sides have not met.
    Exhausted,
    /// There are states left to expand.
    Open(Frontier),
}

/// What trying the moves of the phase from the `tried`-th on, in order,
/// makes of a frontier, for the state `cube` of the side `direction`. A
/// move that leads to a key which the side has recorded changes nothing.
/// Any other move gets its cube recorded, with the path to `cube`
/// lengthened by the move; if the other side has recorded the same key, the
/// sides have met, and the answer is the forward path to the key followed by
/// the inverse of the backward path; else the new cube is queued.
pub open spec fn expand(
    phase: Phase,
    frontier: Frontier,
    cube: CubieState,
    direction: QueueDirection,
    tried: nat,
) -> Progress
    decreases phase.moves().len() - tried,
{
    if tried >= phase.moves().len() {
        Progress::Open(frontier)
    } else {
        let action = phase.moves()[tried as int];
        let next = cube.apply_move(action);
        let key = cube_key(phase, next);
        if frontier.history.contains_key((key, direction)) {
            expand(phase, frontier, cube, direction, tried + 1)
        } else {
            let path = frontier.history[(cube_key(phase, cube), direction)].push(action);
            let history = frontier.history.insert((key, direction), path);
            if history.contains_key((key, direction.opposite())) {
                Progress::Found(
                    history[(key, QueueDirection::Forward)] + inverse_path(
                        history[(key, QueueDirection::Backward)],
                    ),
                )
            } else {
                expand(
                    phase,
                    Frontier { history, queue: frontier.queue.push((next, direction)) },
                    cube,
                    direction,
                    tried + 1,
                )
            }
        }
    }
}

/// The frontier with its first state taken off the queue.
pub open spec fn popped(frontier: Frontier) -> Frontier {
    Frontier { history: frontier.history, queue: frontier.queue.drop_first() }
}

/// What expanding up to `fuel` states, first come first, makes of a
/// frontier.
pub open spec fn run(phase: Phase, frontier: Frontier, fuel: nat) -> Progress
    decreases fuel,
{
    if fuel == 0 {
        Progress::Open(frontier)
    } else if frontier.queue.len() == 0 {
        Progress::Exhausted
    } else {
        match expand(phase, popped(frontier), frontier.queue[0].0, frontier.queue[0].1, 0) {
            Progress::Open(next) => run(phase, next, (fuel - 1) as nat),
            Progress::Found(path) => Progress::Found(path),
            Progress::Exhausted => Progress::Exhausted,
        }
    }
}

/// The frontier with which a search starts: each side has recorded its
/// origin, by the empty path, and the two origins are queued, the forward
/// one first.
pub open spec fn first_frontier(phase: Phase, start: CubieState) -> Frontier {
    Frontier {
        history: Map::<(u128, QueueDirection), Seq<Move>>::empty().insert(
            (cube_key(phase, start), QueueDirection::Forward),
            Seq::<Move>::empty(),
        ).insert(
            (cube_key(phase, CubieState::solved()), QueueDirection::Backward),
            Seq::<Move>::empty(),
        ),
        queue: Seq::<(CubieState, QueueDirection)>::empty().push(
            (start, QueueDirection::Forward),
        ).push((CubieState::solved(), QueueDirection::Backward)),
    }
}

/// How far the search of a phase from `start` has come after up to `fuel`
/// expansions. A cube that has the phase id of the solved cube needs no
/// search: the answer is empty.
pub open spec fn search_within(phase: Phase, start: CubieState, fuel: nat) -> Progress {
    if phase_id(phase, start) == phase_id(phase, CubieState::solved()) {
        Progress::Found(Seq::<Move>::empty())
    } else {
        run(phase, first_frontier(phase, start), fuel)
    }
}

/// The answer that a progress holds, if it holds one.
pub open spec fn answer_of(progress: Progress) -> Option<Seq<Move>> {
    match progress {
        Progress::Found(path) => Some(path),
        _ => None,
    }
}

/// The answer of the search of a phase from `start`: the answer that it
/// comes to after enough expansions, or none if it comes to none.
pub open spec fn search_answer(phase: Phase, start: CubieState) -> Option<Seq<Move>> {
    if exists|fuel: nat| #[trigger] search_within(phase, start, fuel) is Found {
        answer_of(
            search_within(
                phase,
                start,
                choose|fuel: nat| #[trigger] search_within(phase, start, fuel) is Found,
            ),
        )
    } else {
        None
    }
}

/// A search that has ended stays as it ended, however many more expansions
/// it is allowed.
pub proof fn lemma_run_settles(phase: Phase, frontier: Frontier, fuel: nat, more: nat)
    requires
        !(run(phase, frontier, fuel) is Open),
    ensures
        run(phase, frontier, fuel + more) == run(phase, frontier, fuel),
    decreases fuel,
{
    if fuel > 0 && frontier.queue.len() > 0 {
        match expand(phase, popped(frontier), frontier.queue[0].0, frontier.queue[0].1, 0) {
            Progress::Open(next) => {
                lemma_run_settles(phase, next, (fuel - 1) as nat, more);
                assert(run(phase, frontier, fuel + more) == run(
                    phase,
                    next,
                    (fuel + more - 1) as nat,
                ));
            },
            _ => {},
        }
    }
}

/// A search that has ended after some number of expansions has ended in
/// the same way after any other number after which it has ended.
pub proof fn lemma_search_settles(phase: Phase, start: CubieState, first: nat, second: nat)
    requires
        !(search_within(phase, start, first) is Open),
        !(search_within(phase, start, second) is Open),
    ensures
        search_within(phase, start, first) == search_within(phase, start, second),
{
    if phase_id(phase, start) != phase_id(phase, CubieState::solved()) {
        let frontier = first_frontier(phase, start);
        if first <= second {
            lemma_run_settles(phase, frontier, first, (second - first) as nat);
        } else {
            lemma_run_settles(phase, frontier, second, (first - second) as nat);
        }
    }
}

/// The answer of a search is the answer that it has come to, once it has
/// ended.
pub proof fn lemma_search_answer(phase: Phase, start: CubieState, fuel: nat)
    requires
        !(search_within(phase, start, fuel) is Open),
    ensures
        search_answer(phase, start) == answer_of(search_within(phase, start, fuel)),
{
    if exists|n: nat| #[trigger] search_within(phase, start, n) is Found {
        let n = choose|n: nat| #[trigger] search_within(phase, start, n) is Found;
        lemma_search_settles(phase, start, fuel, n);
    }
}

} // verus!
