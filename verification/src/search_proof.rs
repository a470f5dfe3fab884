//! Why the search of a phase is right: what holds of its history and its
//! queue while it runs, that each of its steps keeps this, and that each of
//! its steps is a step of the search as it is laid down step by step.

use vstd::prelude::*;

use crate::congruence::{
    lemma_exact_phases_congruent,
    lemma_meeting_path_reaches_goal,
    search_is_exact,
};
use crate::cube_laws::{lemma_apply_move_is_multiply, lemma_apply_moves_push, lemma_apply_moves_wf};
use crate::cubie_cube::{CubieCube, CubieState};
use crate::moves::{inverse_path, Move};
use crate::phase::{lemma_permitted_moves, phase_id, Phase};
use crate::search::{
    congruent_from,
    cube_key,
    is_meeting_path,
    lemma_same_key_same_id,
    meets,
    never_meets,
    origin,
    QueueDirection,
};
use crate::search_model::{expand, first_frontier, popped, run, Frontier, Progress};

verus! {

/// An entry of the history is sound: its path uses permitted moves only and
/// leads from its side's origin to a cube that is filed under its key.
pub open spec fn entry_sound(
    phase: Phase,
    start: CubieState,
    key: u128,
    direction: QueueDirection,
    path: Seq<Move>,
) -> bool {
    &&& phase.permits_all(path)
    &&& cube_key(phase, origin(start, direction).apply_moves(path)) == key
}

/// A queued state is the cube to which the path recorded under its key
/// leads.
pub open spec fn queued_sound(
    phase: Phase,
    start: CubieState,
    history: Map<(u128, QueueDirection), Seq<Move>>,
    item: (CubieCube, QueueDirection),
) -> bool {
    let key = cube_key(phase, item.0@);
    &&& item.0@.wf()
    &&& history.contains_key((key, item.1))
    &&& item.0@ == origin(start, item.1).apply_moves(history[(key, item.1)])
}

/// Every move that the phase permits leads from the cube recorded under an
/// entry to a cube whose key the same side has recorded too.
pub open spec fn expanded(
    phase: Phase,
    start: CubieState,
    history: Map<(u128, QueueDirection), Seq<Move>>,
    key: u128,
    direction: QueueDirection,
) -> bool {
    let at = origin(start, direction).apply_moves(history[(key, direction)]);
    forall|action: Move| #[trigger]
        phase.permits(action) ==> history.contains_key(
            (cube_key(phase, at.apply_move(action)), direction),
        )
}

/// The books of a search under way: every entry of the history has a place
/// in the order in which entries were made; the entries in the first `done`
/// places have been expanded, but for the one that is being expanded; the
/// others are the states in the queue, in order.
pub open spec fn accounted(
    phase: Phase,
    start: CubieState,
    history: Map<(u128, QueueDirection), Seq<Move>>,
    queue: Seq<(CubieCube, QueueDirection)>,
    place: Map<(u128, QueueDirection), int>,
    done: int,
    current: Option<(u128, QueueDirection)>,
) -> bool {
    forall|k: u128, d: QueueDirection| #[trigger]
        history.contains_key((k, d)) ==> {
            let t = place[(k, d)];
            &&& t < done + queue.len()
            &&& t >= done ==> queue[t - done].1 == d && cube_key(phase, queue[t - done].0@) == k
            &&& t < done ==> expanded(phase, start, history, k, d) || current == Some((k, d))
        }
}

/// No id has been reached from both sides.
pub open spec fn sides_apart(history: Map<(u128, QueueDirection), Seq<Move>>) -> bool {
    forall|k: u128|
        !(#[trigger] history.contains_key((k, QueueDirection::Forward)) && history.contains_key(
            (k, QueueDirection::Backward),
        ))
}

/// Every entry of the history is sound.
pub open spec fn all_sound(
    phase: Phase,
    start: CubieState,
    history: Map<(u128, QueueDirection), Seq<Move>>,
) -> bool {
    forall|k: u128, d: QueueDirection| #[trigger]
        history.contains_key((k, d)) ==> entry_sound(phase, start, k, d, history[(k, d)])
}

/// The state that is being expanded, if any, is the cube to which the path
/// recorded under its key leads, and the first `tried` moves of the phase
/// lead from it to cubes whose keys its side has recorded.
pub open spec fn current_sound(
    phase: Phase,
    start: CubieState,
    history: Map<(u128, QueueDirection), Seq<Move>>,
    current: Option<(CubieState, QueueDirection)>,
    tried: int,
) -> bool {
    match current {
        Some((state, direction)) => {
            let key = cube_key(phase, state);
            &&& state.wf()
            &&& history.contains_key((key, direction))
            &&& state == origin(start, direction).apply_moves(history[(key, direction)])
            &&& 0 <= tried <= phase.moves().len()
            &&& forall|j: int|
                0 <= j < tried ==> history.contains_key(
                    (cube_key(phase, state.apply_move(#[trigger] phase.moves()[j])), direction),
                )
        },
        None => true,
    }
}

/// The key and side of the state that is being expanded.
pub open spec fn current_entry(phase: Phase, current: Option<(CubieState, QueueDirection)>) -> Option<
    (u128, QueueDirection),
> {
    match current {
        Some((state, direction)) => Some((cube_key(phase, state), direction)),
        None => None,
    }
}

/// What holds while a search is under way, of its history, its queue and
/// the state that is being expanded.
#[verifier::opaque]
pub open spec fn search_inv(
    phase: Phase,
    start: CubieState,
    history: Map<(u128, QueueDirection), Seq<Move>>,
    queue: Seq<(CubieCube, QueueDirection)>,
    place: Map<(u128, QueueDirection), int>,
    done: int,
    current: Option<(CubieState, QueueDirection)>,
    tried: int,
) -> bool {
    &&& start.wf()
    &&& all_sound(phase, start, history)
    &&& sides_apart(history)
    &&& history.contains_key((cube_key(phase, start), QueueDirection::Forward))
    &&& history.contains_key((cube_key(phase, CubieState::solved()), QueueDirection::Backward))
    &&& accounted(phase, start, history, queue, place, done, current_entry(phase, current))
    &&& current_sound(phase, start, history, current, tried)
    &&& forall|j: int|
        0 <= j < queue.len() ==> queued_sound(phase, start, history, #[trigger] queue[j])
}

/// A search starts with its two origins recorded and queued.
pub(crate) proof fn lemma_search_init(
    phase: Phase,
    start: CubieCube,
    solved: CubieCube,
    history: Map<(u128, QueueDirection), Seq<Move>>,
    queue: Seq<(CubieCube, QueueDirection)>,
) -> (place: Map<(u128, QueueDirection), int>)
    requires
        start@.wf(),
        solved@ == CubieState::solved(),
        cube_key(phase, start@) != cube_key(phase, solved@),
        history == Map::<(u128, QueueDirection), Seq<Move>>::empty().insert(
            (cube_key(phase, start@), QueueDirection::Forward),
            Seq::<Move>::empty(),
        ).insert((cube_key(phase, solved@), QueueDirection::Backward), Seq::<Move>::empty()),
        queue == Seq::<(CubieCube, QueueDirection)>::empty().push(
            (start, QueueDirection::Forward),
        ).push((solved, QueueDirection::Backward)),
    ensures
        search_inv(phase, start@, history, queue, place, 0, None, 0),
        place == Map::<(u128, QueueDirection), int>::empty().insert(
            (cube_key(phase, start@), QueueDirection::Forward),
            0,
        ).insert((cube_key(phase, solved@), QueueDirection::Backward), 1),
{
    reveal(search_inv);
    let start_entry = (cube_key(phase, start@), QueueDirection::Forward);
    let goal_entry = (cube_key(phase, solved@), QueueDirection::Backward);
    let place = Map::<(u128, QueueDirection), int>::empty().insert(start_entry, 0).insert(
        goal_entry,
        1,
    );
    let no_moves = Seq::<Move>::empty();
    assert forall|k: u128, d: QueueDirection| #[trigger] history.contains_key((k, d)) implies {
        let t = place[(k, d)];
        &&& entry_sound(phase, start@, k, d, history[(k, d)])
        &&& t < 0 + queue.len()
        &&& t >= 0 ==> queue[t - 0].1 == d && cube_key(phase, queue[t - 0].0@) == k
        &&& !(t < 0)
    } by {
        assert((k, d) == start_entry || (k, d) == goal_entry);
        assert(history[(k, d)] == no_moves);
    }
    assert forall|j: int| 0 <= j < queue.len() implies queued_sound(
        phase,
        start@,
        history,
        #[trigger] queue[j],
    ) by {
        assert(history[start_entry] == no_moves);
        assert(history[goal_entry] == no_moves);
    }
    place
}

/// Taking the first state off the queue makes it the one that is being
/// expanded.
pub(crate) proof fn lemma_search_pop(
    phase: Phase,
    start: CubieState,
    history: Map<(u128, QueueDirection), Seq<Move>>,
    queue: Seq<(CubieCube, QueueDirection)>,
    place: Map<(u128, QueueDirection), int>,
    done: int,
)
    requires
        queue.len() > 0,
        search_inv(phase, start, history, queue, place, done, None, 0),
    ensures
        search_inv(
            phase,
            start,
            history,
            queue.subrange(1, queue.len() as int),
            place,
            done + 1,
            Some((queue[0].0@, queue[0].1)),
            0,
        ),
        queue[0].0@.wf(),
        history.contains_key((cube_key(phase, queue[0].0@), queue[0].1)),
{
    reveal(search_inv);
    let rest = queue.subrange(1, queue.len() as int);
    let current = Some((cube_key(phase, queue[0].0@), queue[0].1));
    assert(queued_sound(phase, start, history, queue[0]));
    assert forall|k: u128, d: QueueDirection| #[trigger] history.contains_key((k, d)) implies {
        let t = place[(k, d)];
        &&& t < done + 1 + rest.len()
        &&& t >= done + 1 ==> rest[t - (done + 1)].1 == d && cube_key(
            phase,
            rest[t - (done + 1)].0@,
        ) == k
        &&& t < done + 1 ==> expanded(phase, start, history, k, d) || current == Some((k, d))
    } by {
        let t = place[(k, d)];
        if t > done {
            assert(rest[t - (done + 1)] == queue[t - done]);
        }
    }
    assert forall|j: int| 0 <= j < rest.len() implies queued_sound(
        phase,
        start,
        history,
        #[trigger] rest[j],
    ) by {
        assert(rest[j] == queue[j + 1]);
    }
}

/// A move that leads to a key that the side has recorded already needs no
/// new entry.
pub(crate) proof fn lemma_search_skip(
    phase: Phase,
    start: CubieState,
    history: Map<(u128, QueueDirection), Seq<Move>>,
    queue: Seq<(CubieCube, QueueDirection)>,
    place: Map<(u128, QueueDirection), int>,
    done: int,
    state: CubieState,
    direction: QueueDirection,
    tried: int,
)
    requires
        search_inv(phase, start, history, queue, place, done, Some((state, direction)), tried),
        tried < phase.moves().len(),
        history.contains_key(
            (cube_key(phase, state.apply_move(phase.moves()[tried])), direction),
        ),
    ensures
        search_inv(
            phase,
            start,
            history,
            queue,
            place,
            done,
            Some((state, direction)),
            tried + 1,
        ),
{
    reveal(search_inv);
}

/// The path to a new state: the path to the state that is being expanded,
/// and the move that was tried.
pub open spec fn next_path(
    phase: Phase,
    history: Map<(u128, QueueDirection), Seq<Move>>,
    state: CubieState,
    direction: QueueDirection,
    tried: int,
) -> Seq<Move> {
    history[(cube_key(phase, state), direction)].push(phase.moves()[tried])
}

/// The history with the new state recorded.
pub open spec fn next_history(
    phase: Phase,
    history: Map<(u128, QueueDirection), Seq<Move>>,
    state: CubieState,
    direction: QueueDirection,
    tried: int,
) -> Map<(u128, QueueDirection), Seq<Move>> {
    history.insert(
        (cube_key(phase, state.apply_move(phase.moves()[tried])), direction),
        next_path(phase, history, state, direction, tried),
    )
}

/// The new entry is sound, and leaves the old entries as they were.
pub(crate) proof fn lemma_next_history_sound(
    phase: Phase,
    start: CubieState,
    history: Map<(u128, QueueDirection), Seq<Move>>,
    queue: Seq<(CubieCube, QueueDirection)>,
    place: Map<(u128, QueueDirection), int>,
    done: int,
    state: CubieState,
    direction: QueueDirection,
    tried: int,
)
    requires
        search_inv(phase, start, history, queue, place, done, Some((state, direction)), tried),
        tried < phase.moves().len(),
        !history.contains_key(
            (cube_key(phase, state.apply_move(phase.moves()[tried])), direction),
        ),
    ensures
        all_sound(phase, start, next_history(phase, history, state, direction, tried)),
        state.apply_move(phase.moves()[tried]).wf(),
{
    reveal(search_inv);
    let action = phase.moves()[tried];
    let next = state.apply_move(action);
    let key = cube_key(phase, next);
    let parent = history[(cube_key(phase, state), direction)];
    let path = parent.push(action);
    let grown = next_history(phase, history, state, direction, tried);
    lemma_permitted_moves(phase, action);
    assert(phase.permits(action)) by {
        assert(phase.moves().contains(action));
    }
    lemma_apply_moves_push(origin(start, direction), parent, action);
    lemma_apply_move_is_multiply(state, action);
    assert(entry_sound(phase, start, cube_key(phase, state), direction, parent));
    assert forall|i: int| 0 <= i < path.len() implies phase.permits(#[trigger] path[i]) by {
        if i < parent.len() {
            assert(path[i] == parent[i]);
        }
    }
    assert forall|k: u128, d: QueueDirection| #[trigger] grown.contains_key((k, d)) implies entry_sound(
        phase,
        start,
        k,
        d,
        grown[(k, d)],
    ) by {
        if (k, d) != (key, direction) {
            assert(history.contains_key((k, d)));
        }
    }
}

/// A new state whose key the other side has recorded gives an answer.
pub(crate) proof fn lemma_search_meet(
    phase: Phase,
    start: CubieState,
    history: Map<(u128, QueueDirection), Seq<Move>>,
    queue: Seq<(CubieCube, QueueDirection)>,
    place: Map<(u128, QueueDirection), int>,
    done: int,
    state: CubieState,
    direction: QueueDirection,
    tried: int,
)
    requires
        search_inv(phase, start, history, queue, place, done, Some((state, direction)), tried),
        tried < phase.moves().len(),
        !history.contains_key(
            (cube_key(phase, state.apply_move(phase.moves()[tried])), direction),
        ),
        history.contains_key(
            (cube_key(phase, state.apply_move(phase.moves()[tried])), direction.opposite()),
        ),
    ensures
        ({
            let key = cube_key(phase, state.apply_move(phase.moves()[tried]));
            let grown = next_history(phase, history, state, direction, tried);
            &&& grown.contains_key((key, QueueDirection::Forward))
            &&& grown.contains_key((key, QueueDirection::Backward))
            &&& is_meeting_path(
                phase,
                start,
                grown[(key, QueueDirection::Forward)] + inverse_path(
                    grown[(key, QueueDirection::Backward)],
                ),
            )
            &&& search_is_exact(phase, start) ==> phase_id(
                phase,
                start.apply_moves(
                    grown[(key, QueueDirection::Forward)] + inverse_path(
                        grown[(key, QueueDirection::Backward)],
                    ),
                ),
            ) == phase_id(phase, CubieState::solved())
        }),
{
    lemma_next_history_sound(phase, start, history, queue, place, done, state, direction, tried);
    reveal(search_inv);
    let key = cube_key(phase, state.apply_move(phase.moves()[tried]));
    let grown = next_history(phase, history, state, direction, tried);
    assert(grown.contains_key((key, direction)));
    assert(grown.contains_key((key, direction.opposite())));
    let forward = grown[(key, QueueDirection::Forward)];
    let backward = grown[(key, QueueDirection::Backward)];
    assert(entry_sound(phase, start, key, QueueDirection::Forward, forward));
    assert(entry_sound(phase, start, key, QueueDirection::Backward, backward));
    lemma_apply_moves_wf(start, forward);
    lemma_apply_moves_wf(CubieState::solved(), backward);
    lemma_same_key_same_id(
        phase,
        start.apply_moves(forward),
        CubieState::solved().apply_moves(backward),
    );
    assert(meets(phase, start, forward, backward));
    if search_is_exact(phase, start) {
        lemma_meeting_path_reaches_goal(phase, start, forward + inverse_path(backward));
    }
}

/// A new state whose key no side has recorded is recorded and queued.
pub(crate) proof fn lemma_search_insert(
    phase: Phase,
    start: CubieState,
    history: Map<(u128, QueueDirection), Seq<Move>>,
    queue: Seq<(CubieCube, QueueDirection)>,
    place: Map<(u128, QueueDirection), int>,
    done: int,
    state: CubieState,
    direction: QueueDirection,
    tried: int,
    item: (CubieCube, QueueDirection),
)
    requires
        search_inv(phase, start, history, queue, place, done, Some((state, direction)), tried),
        tried < phase.moves().len(),
        item.0@ == state.apply_move(phase.moves()[tried]),
        item.1 == direction,
        !history.contains_key((cube_key(phase, item.0@), direction)),
        !history.contains_key((cube_key(phase, item.0@), direction.opposite())),
    ensures
        search_inv(
            phase,
            start,
            next_history(phase, history, state, direction, tried),
            queue.push(item),
            place.insert((cube_key(phase, item.0@), direction), done + queue.len()),
            done,
            Some((state, direction)),
            tried + 1,
        ),
{
    lemma_next_history_sound(phase, start, history, queue, place, done, state, direction, tried);
    reveal(search_inv);
    let key = cube_key(phase, item.0@);
    let path = next_path(phase, history, state, direction, tried);
    let grown = next_history(phase, history, state, direction, tried);
    let longer = queue.push(item);
    let placed = place.insert((key, direction), done + queue.len());
    let current = current_entry(phase, Some((state, direction)));
    lemma_apply_moves_push(
        origin(start, direction),
        history[(cube_key(phase, state), direction)],
        phase.moves()[tried],
    );
    assert forall|k: u128, d: QueueDirection| #[trigger] grown.contains_key((k, d)) implies {
        let t = placed[(k, d)];
        &&& t < done + longer.len()
        &&& t >= done ==> longer[t - done].1 == d && cube_key(phase, longer[t - done].0@) == k
        &&& t < done ==> expanded(phase, start, grown, k, d) || current == Some((k, d))
    } by {
        if (k, d) == (key, direction) {
            assert(longer[queue.len() as int] == item);
        } else {
            assert(history.contains_key((k, d)));
            let t = place[(k, d)];
            if t >= done {
                assert(longer[t - done] == queue[t - done]);
            } else if expanded(phase, start, history, k, d) {
                lemma_expanded_grows(phase, start, history, k, d, (key, direction), path);
            }
        }
    }
    assert(sides_apart(grown)) by {
        assert forall|k: u128|
            !(#[trigger] grown.contains_key((k, QueueDirection::Forward)) && grown.contains_key(
                (k, QueueDirection::Backward),
            )) by {
            if k != key {
                assert(!(history.contains_key((k, QueueDirection::Forward))
                    && history.contains_key((k, QueueDirection::Backward))));
            }
        }
    }
    assert forall|j: int| 0 <= j < longer.len() implies queued_sound(
        phase,
        start,
        grown,
        #[trigger] longer[j],
    ) by {
        if j < queue.len() {
            assert(longer[j] == queue[j]);
            assert(queued_sound(phase, start, history, queue[j]));
        }
    }
    assert(current_sound(phase, start, grown, Some((state, direction)), tried + 1)) by {
        assert forall|j: int| 0 <= j < tried + 1 implies grown.contains_key(
            (cube_key(phase, state.apply_move(#[trigger] phase.moves()[j])), direction),
        ) by {
            if j < tried {
                assert(history.contains_key(
                    (cube_key(phase, state.apply_move(phase.moves()[j])), direction),
                ));
            }
        }
    }
}

/// An entry that is expanded stays so when the history gets a new entry.
pub(crate) proof fn lemma_expanded_grows(
    phase: Phase,
    start: CubieState,
    history: Map<(u128, QueueDirection), Seq<Move>>,
    key: u128,
    direction: QueueDirection,
    entry: (u128, QueueDirection),
    path: Seq<Move>,
)
    requires
        history.contains_key((key, direction)),
        !history.contains_key(entry),
        expanded(phase, start, history, key, direction),
    ensures
        expanded(phase, start, history.insert(entry, path), key, direction),
{
    let grown = history.insert(entry, path);
    assert(grown[(key, direction)] == history[(key, direction)]);
    let at = origin(start, direction).apply_moves(history[(key, direction)]);
    assert forall|action: Move| #[trigger] phase.permits(action) implies grown.contains_key(
        (cube_key(phase, at.apply_move(action)), direction),
    ) by {
        assert(history.contains_key((cube_key(phase, at.apply_move(action)), direction)));
    }
}

/// Once every move of the phase has been tried on the state that is being
/// expanded, its entry is expanded.
pub(crate) proof fn lemma_search_finish(
    phase: Phase,
    start: CubieState,
    history: Map<(u128, QueueDirection), Seq<Move>>,
    queue: Seq<(CubieCube, QueueDirection)>,
    place: Map<(u128, QueueDirection), int>,
    done: int,
    state: CubieState,
    direction: QueueDirection,
)
    requires
        search_inv(
            phase,
            start,
            history,
            queue,
            place,
            done,
            Some((state, direction)),
            phase.moves().len() as int,
        ),
    ensures
        search_inv(phase, start, history, queue, place, done, None, 0),
{
    reveal(search_inv);
    let key = cube_key(phase, state);
    assert forall|action: Move| #[trigger] phase.permits(action) implies history.contains_key(
        (cube_key(phase, state.apply_move(action)), direction),
    ) by {
        lemma_permitted_moves(phase, action);
        let j = choose|j: int| 0 <= j < phase.moves().len() && phase.moves()[j] == action;
        assert(phase.moves()[j] == action);
    }
    assert(expanded(phase, start, history, key, direction));
}

/// In a history whose entries are all sound and expanded, a side has
/// recorded the key of every cube that permitted moves reach from its
/// origin, provided that the phase id is a congruence there.
pub proof fn lemma_closed_history_reaches(
    phase: Phase,
    start: CubieState,
    history: Map<(u128, QueueDirection), Seq<Move>>,
    direction: QueueDirection,
    path: Seq<Move>,
)
    requires
        start.wf(),
        phase.permits_all(path),
        congruent_from(phase, origin(start, direction)),
        all_sound(phase, start, history),
        history.contains_key((cube_key(phase, origin(start, direction)), direction)),
        forall|k: u128| #[trigger]
            history.contains_key((k, direction)) ==> expanded(phase, start, history, k, direction),
    ensures
        history.contains_key(
            (cube_key(phase, origin(start, direction).apply_moves(path)), direction),
        ),
    decreases path.len(),
{
    let from = origin(start, direction);
    assert(CubieState::solved().wf());
    if path.len() > 0 {
        let init = path.drop_last();
        let action = path.last();
        assert(phase.permits(path[path.len() - 1]));
        assert forall|i: int| 0 <= i < init.len() implies phase.permits(#[trigger] init[i]) by {
            assert(init[i] == path[i]);
        }
        lemma_closed_history_reaches(phase, start, history, direction, init);
        let key = cube_key(phase, from.apply_moves(init));
        let recorded = history[(key, direction)];
        assert(entry_sound(phase, start, key, direction, recorded));
        assert(expanded(phase, start, history, key, direction));
        lemma_apply_moves_wf(from, init);
        lemma_apply_moves_wf(from, recorded);
        lemma_same_key_same_id(phase, from.apply_moves(recorded), from.apply_moves(init));
        assert(phase_id(phase, from.apply_moves(recorded).apply_move(action)) == phase_id(
            phase,
            from.apply_moves(init).apply_move(action),
        ));
        assert(history.contains_key(
            (cube_key(phase, from.apply_moves(recorded).apply_move(action)), direction),
        ));
    }
}

/// Where both sides have expanded all they reached without meeting, and
/// the phase id is a congruence on both sides, no two paths meet.
pub proof fn lemma_exhausted_sides_never_meet(
    phase: Phase,
    start: CubieState,
    history: Map<(u128, QueueDirection), Seq<Move>>,
)
    requires
        start.wf(),
        congruent_from(phase, start),
        congruent_from(phase, CubieState::solved()),
        all_sound(phase, start, history),
        sides_apart(history),
        history.contains_key((cube_key(phase, start), QueueDirection::Forward)),
        history.contains_key((cube_key(phase, CubieState::solved()), QueueDirection::Backward)),
        forall|k: u128, d: QueueDirection| #[trigger]
            history.contains_key((k, d)) ==> expanded(phase, start, history, k, d),
    ensures
        never_meets(phase, start),
{
    assert forall|forward: Seq<Move>, backward: Seq<Move>|
        !#[trigger] meets(phase, start, forward, backward) by {
        if meets(phase, start, forward, backward) {
            lemma_closed_history_reaches(phase, start, history, QueueDirection::Forward, forward);
            lemma_closed_history_reaches(
                phase,
                start,
                history,
                QueueDirection::Backward,
                backward,
            );
            let key = cube_key(phase, start.apply_moves(forward));
            assert(history.contains_key((key, QueueDirection::Forward)));
            assert(history.contains_key((key, QueueDirection::Backward)));
        }
    }
}

/// A search that runs out of states has expanded all that both sides
/// reached, without their meeting.
pub(crate) proof fn lemma_search_exhausted(
    phase: Phase,
    start: CubieState,
    history: Map<(u128, QueueDirection), Seq<Move>>,
    place: Map<(u128, QueueDirection), int>,
    done: int,
)
    requires
        search_inv(
            phase,
            start,
            history,
            Seq::<(CubieCube, QueueDirection)>::empty(),
            place,
            done,
            None,
            0,
        ),
    ensures
        congruent_from(phase, start) && congruent_from(phase, CubieState::solved())
            ==> never_meets(phase, start),
        search_is_exact(phase, start) ==> never_meets(phase, start),
{
    reveal(search_inv);
    if search_is_exact(phase, start) {
        lemma_exact_phases_congruent(phase, start);
    }
    if congruent_from(phase, start) && congruent_from(phase, CubieState::solved()) {
        lemma_exhausted_sides_never_meet(phase, start, history);
    }
}

/// The states of a queue of cubes.
pub open spec fn states(queue: Seq<(CubieCube, QueueDirection)>) -> Seq<
    (CubieState, QueueDirection),
> {
    Seq::new(queue.len(), |i: int| (queue[i].0@, queue[i].1))
}

/// The frontier that a history and a queue of cubes make.
pub open spec fn frontier_of(
    history: Map<(u128, QueueDirection), Seq<Move>>,
    queue: Seq<(CubieCube, QueueDirection)>,
) -> Frontier {
    Frontier { history, queue: states(queue) }
}

/// After `used` expansions the search that began with `begun` has come to
/// `now`: whatever more expansions lead to from `now`, that many more lead
/// to from `begun`.
#[verifier::opaque]
pub open spec fn tracks(phase: Phase, begun: Frontier, used: nat, now: Frontier) -> bool {
    forall|fuel: nat| #[trigger] run(phase, begun, used + fuel) == run(phase, now, fuel)
}

/// A search has come to where it began after no expansions.
pub(crate) proof fn lemma_tracks_start(
    phase: Phase,
    start: CubieCube,
    solved: CubieCube,
    history: Map<(u128, QueueDirection), Seq<Move>>,
    queue: Seq<(CubieCube, QueueDirection)>,
)
    requires
        solved@ == CubieState::solved(),
        history == first_frontier(phase, start@).history,
        queue == Seq::<(CubieCube, QueueDirection)>::empty().push(
            (start, QueueDirection::Forward),
        ).push((solved, QueueDirection::Backward)),
    ensures
        tracks(phase, first_frontier(phase, start@), 0, frontier_of(history, queue)),
{
    reveal(tracks);
    assert(states(queue) =~= first_frontier(phase, start@).queue);
}

/// With the queue empty, the search is exhausted.
pub(crate) proof fn lemma_tracks_exhausted(phase: Phase, begun: Frontier, used: nat, now: Frontier)
    requires
        tracks(phase, begun, used, now),
        now.queue.len() == 0,
    ensures
        run(phase, begun, used + 1) == Progress::Exhausted,
{
    reveal(tracks);
    assert(run(phase, begun, used + 1) == run(phase, now, 1));
}

/// If expanding the first state of the queue finds an answer, that is the
/// answer of the search.
pub(crate) proof fn lemma_tracks_found(
    phase: Phase,
    begun: Frontier,
    used: nat,
    now: Frontier,
    path: Seq<Move>,
)
    requires
        tracks(phase, begun, used, now),
        now.queue.len() > 0,
        expand(phase, popped(now), now.queue[0].0, now.queue[0].1, 0) == Progress::Found(path),
    ensures
        run(phase, begun, used + 1) == Progress::Found(path),
{
    reveal(tracks);
    assert(run(phase, begun, used + 1) == run(phase, now, 1));
}

/// If expanding the first state of the queue leaves the search open, the
/// search has come to what the expansion left.
pub(crate) proof fn lemma_tracks_step(
    phase: Phase,
    begun: Frontier,
    used: nat,
    now: Frontier,
    next: Frontier,
)
    requires
        tracks(phase, begun, used, now),
        now.queue.len() > 0,
        expand(phase, popped(now), now.queue[0].0, now.queue[0].1, 0) == Progress::Open(next),
    ensures
        tracks(phase, begun, used + 1, next),
{
    reveal(tracks);
    assert forall|fuel: nat| #[trigger]
        run(phase, begun, used + 1 + fuel) == run(phase, next, fuel) by {
        assert(run(phase, begun, used + (fuel + 1)) == run(phase, now, fuel + 1));
        assert(run(phase, now, fuel + 1) == run(phase, next, fuel));
    }
}

/// Taking the first cube off the queue takes the first state off the
/// frontier.
pub(crate) proof fn lemma_popped(
    history: Map<(u128, QueueDirection), Seq<Move>>,
    queue: Seq<(CubieCube, QueueDirection)>,
)
    requires
        queue.len() > 0,
    ensures
        popped(frontier_of(history, queue)) == frontier_of(
            history,
            queue.subrange(1, queue.len() as int),
        ),
        frontier_of(history, queue).queue[0] == (queue[0].0@, queue[0].1),
        frontier_of(history, queue).queue.len() == queue.len(),
{
    assert(states(queue).drop_first() =~= states(queue.subrange(1, queue.len() as int)));
}

/// A move that leads to a key which the side has recorded changes nothing.
pub(crate) proof fn lemma_expand_skip(
    phase: Phase,
    frontier: Frontier,
    cube: CubieState,
    direction: QueueDirection,
    tried: nat,
)
    requires
        tried < phase.moves().len(),
        frontier.history.contains_key(
            (cube_key(phase, cube.apply_move(phase.moves()[tried as int])), direction),
        ),
    ensures
        expand(phase, frontier, cube, direction, tried) == expand(
            phase,
            frontier,
            cube,
            direction,
            tried + 1,
        ),
{
}

/// A move that leads to a key which the other side has recorded ends the
/// search.
pub(crate) proof fn lemma_expand_meet(
    phase: Phase,
    history: Map<(u128, QueueDirection), Seq<Move>>,
    queue: Seq<(CubieCube, QueueDirection)>,
    cube: CubieState,
    direction: QueueDirection,
    tried: nat,
)
    requires
        tried < phase.moves().len(),
        !history.contains_key(
            (cube_key(phase, cube.apply_move(phase.moves()[tried as int])), direction),
        ),
        next_history(phase, history, cube, direction, tried as int).contains_key(
            (
                cube_key(phase, cube.apply_move(phase.moves()[tried as int])),
                direction.opposite(),
            ),
        ),
    ensures
        ({
            let key = cube_key(phase, cube.apply_move(phase.moves()[tried as int]));
            let grown = next_history(phase, history, cube, direction, tried as int);
            expand(phase, frontier_of(history, queue), cube, direction, tried) == Progress::Found(
                grown[(key, QueueDirection::Forward)] + inverse_path(
                    grown[(key, QueueDirection::Backward)],
                ),
            )
        }),
{
}

/// A move that leads to a key which neither side has recorded gets its
/// cube recorded and queued.
pub(crate) proof fn lemma_expand_insert(
    phase: Phase,
    history: Map<(u128, QueueDirection), Seq<Move>>,
    queue: Seq<(CubieCube, QueueDirection)>,
    cube: CubieState,
    direction: QueueDirection,
    tried: nat,
    item: (CubieCube, QueueDirection),
)
    requires
        tried < phase.moves().len(),
        item.0@ == cube.apply_move(phase.moves()[tried as int]),
        item.1 == direction,
        !history.contains_key((cube_key(phase, item.0@), direction)),
        !next_history(phase, history, cube, direction, tried as int).contains_key(
            (cube_key(phase, item.0@), direction.opposite()),
        ),
    ensures
        expand(phase, frontier_of(history, queue), cube, direction, tried) == expand(
            phase,
            frontier_of(
                next_history(phase, history, cube, direction, tried as int),
                queue.push(item),
            ),
            cube,
            direction,
            tried + 1,
        ),
{
    assert(states(queue).push((item.0@, item.1)) =~= states(queue.push(item)));
}

/// Once every move has been tried, the expansion is done.
pub(crate) proof fn lemma_expand_done(
    phase: Phase,
    frontier: Frontier,
    cube: CubieState,
    direction: QueueDirection,
)
    ensures
        expand(phase, frontier, cube, direction, phase.moves().len()) == Progress::Open(frontier),
{
}

} // verus!
