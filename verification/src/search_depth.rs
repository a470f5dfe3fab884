//! Why the answer of a search is short: states are expanded in the order of
//! the lengths of their paths, so that when the two sides meet, every
//! shorter path from either origin has been followed to its end.

use vstd::prelude::*;

use crate::congruence::{
    lemma_exact_after_moves,
    lemma_exact_phases_congruent,
    lemma_meeting_path_reaches_goal,
    lemma_same_id_after_move,
    lemma_same_id_after_moves,
    search_is_exact,
};
use crate::cube_laws::{lemma_apply_moves_concat, lemma_apply_moves_wf, lemma_path_then_inverse};
use crate::cubie_cube::{CubieCube, CubieState};
use crate::moves::{inverse_path, Move};
use crate::phase::{lemma_permitted_moves, phase_id, Phase};
use crate::search::{cube_key, lemma_same_key_same_id, meets, origin, QueueDirection};
use crate::search_proof::{
    accounted,
    all_sound,
    current_entry,
    current_sound,
    entry_sound,
    next_history,
    queued_sound,
    search_inv,
    sides_apart,
};

verus! {

/// Every move that the phase permits leads from the cube recorded under an
/// entry to a cube whose key the same side has recorded, by a path that is
/// longer by one move at most.
pub open spec fn near(
    phase: Phase,
    start: CubieState,
    history: Map<(u128, QueueDirection), Seq<Move>>,
    key: u128,
    direction: QueueDirection,
) -> bool {
    let at = origin(start, direction).apply_moves(history[(key, direction)]);
    forall|action: Move| #[trigger]
        phase.permits(action) ==> {
            let next = (cube_key(phase, at.apply_move(action)), direction);
            history.contains_key(next) && history[next].len() <= history[(key, direction)].len()
                + 1
        }
}

/// What holds of the lengths of the recorded paths while a search is under
/// way. The state that is being expanded has a path of `depth` moves; no
/// state that has been taken off the queue has a longer one; the queued
/// states have paths of that length or one more, in ascending order; and
/// every state that has been expanded has all its neighbours near.
#[verifier::opaque]
pub open spec fn layered(
    phase: Phase,
    start: CubieState,
    history: Map<(u128, QueueDirection), Seq<Move>>,
    queue: Seq<(CubieCube, QueueDirection)>,
    place: Map<(u128, QueueDirection), int>,
    done: int,
    current: Option<(CubieState, QueueDirection)>,
    tried: int,
    depth: nat,
) -> bool {
    &&& history[(cube_key(phase, start), QueueDirection::Forward)].len() == 0
    &&& history[(cube_key(phase, CubieState::solved()), QueueDirection::Backward)].len() == 0
    &&& forall|k: u128, d: QueueDirection| #[trigger]
        history.contains_key((k, d)) ==> {
            let t = place[(k, d)];
            let len = history[(k, d)].len();
            &&& t < done ==> len <= depth
            &&& t >= done ==> depth <= len <= depth + 1
            &&& t < done && current_entry(phase, current) != Some((k, d)) ==> near(
                phase,
                start,
                history,
                k,
                d,
            )
        }
    &&& forall|i: int, j: int|
        0 <= i < j < queue.len() ==> history[(
            cube_key(phase, (#[trigger] queue[i]).0@),
            queue[i].1,
        )].len() <= history[(cube_key(phase, (#[trigger] queue[j]).0@), queue[j].1)].len()
    &&& forall|j: int|
        0 <= j < queue.len() ==> place[(cube_key(phase, (#[trigger] queue[j]).0@), queue[j].1)]
            == done + j
    &&& match current {
        Some((state, direction)) => {
            &&& history[(cube_key(phase, state), direction)].len() == depth
            &&& forall|j: int|
                0 <= j < tried ==> history[(
                    cube_key(phase, state.apply_move(#[trigger] phase.moves()[j])),
                    direction,
                )].len() <= depth + 1
        },
        None => true,
    }
}

/// A search starts layered, at depth nought.
pub(crate) proof fn lemma_layered_init(
    phase: Phase,
    start: CubieCube,
    solved: CubieCube,
    history: Map<(u128, QueueDirection), Seq<Move>>,
    queue: Seq<(CubieCube, QueueDirection)>,
    place: Map<(u128, QueueDirection), int>,
)
    requires
        solved@ == CubieState::solved(),
        cube_key(phase, start@) != cube_key(phase, solved@),
        history == Map::<(u128, QueueDirection), Seq<Move>>::empty().insert(
            (cube_key(phase, start@), QueueDirection::Forward),
            Seq::<Move>::empty(),
        ).insert((cube_key(phase, solved@), QueueDirection::Backward), Seq::<Move>::empty()),
        queue == Seq::<(CubieCube, QueueDirection)>::empty().push(
            (start, QueueDirection::Forward),
        ).push((solved, QueueDirection::Backward)),
        place == Map::<(u128, QueueDirection), int>::empty().insert(
            (cube_key(phase, start@), QueueDirection::Forward),
            0,
        ).insert((cube_key(phase, solved@), QueueDirection::Backward), 1),
    ensures
        layered(phase, start@, history, queue, place, 0, None, 0, 0),
{
    reveal(layered);
    let start_entry = (cube_key(phase, start@), QueueDirection::Forward);
    let goal_entry = (cube_key(phase, solved@), QueueDirection::Backward);
    assert(history[start_entry].len() == 0);
    assert(history[goal_entry].len() == 0);
    assert forall|k: u128, d: QueueDirection| #[trigger] history.contains_key((k, d)) implies {
        let t = place[(k, d)];
        let len = history[(k, d)].len();
        &&& t >= 0
        &&& 0 <= len <= 0 + 1
    } by {
        assert((k, d) == start_entry || (k, d) == goal_entry);
    }
    assert(queue[0] == (start, QueueDirection::Forward));
    assert(queue[1] == (solved, QueueDirection::Backward));
}

/// Taking the first state off the queue leaves the search layered, at the
/// depth of that state.
pub(crate) proof fn lemma_layered_pop(
    phase: Phase,
    start: CubieState,
    history: Map<(u128, QueueDirection), Seq<Move>>,
    queue: Seq<(CubieCube, QueueDirection)>,
    place: Map<(u128, QueueDirection), int>,
    done: int,
    depth: nat,
)
    requires
        queue.len() > 0,
        search_inv(phase, start, history, queue, place, done, None, 0),
        layered(phase, start, history, queue, place, done, None, 0, depth),
    ensures
        layered(
            phase,
            start,
            history,
            queue.subrange(1, queue.len() as int),
            place,
            done + 1,
            Some((queue[0].0@, queue[0].1)),
            0,
            history[(cube_key(phase, queue[0].0@), queue[0].1)].len(),
        ),
{
    reveal(layered);
    reveal(search_inv);
    let rest = queue.subrange(1, queue.len() as int);
    let front = (cube_key(phase, queue[0].0@), queue[0].1);
    let current = Some((queue[0].0@, queue[0].1));
    let deeper = history[front].len();
    assert(queued_sound(phase, start, history, queue[0]));
    assert(history.contains_key(front));
    assert(place[front] == done + 0);
    assert(depth <= deeper <= depth + 1);
    assert forall|k: u128, d: QueueDirection| #[trigger] history.contains_key((k, d)) implies {
        let t = place[(k, d)];
        let len = history[(k, d)].len();
        &&& t < done + 1 ==> len <= deeper
        &&& t >= done + 1 ==> deeper <= len <= deeper + 1
        &&& t < done + 1 && current_entry(phase, current) != Some((k, d)) ==> near(
            phase,
            start,
            history,
            k,
            d,
        )
    } by {
        let t = place[(k, d)];
        if t >= done {
            assert(queue[t - done].1 == d && cube_key(phase, queue[t - done].0@) == k);
            if t > done {
                assert(history[(cube_key(phase, queue[0].0@), queue[0].1)].len() <= history[(
                    cube_key(phase, queue[t - done].0@),
                    queue[t - done].1,
                )].len());
            }
        }
    }
    assert forall|i: int, j: int| 0 <= i < j < rest.len() implies history[(
        cube_key(phase, (#[trigger] rest[i]).0@),
        rest[i].1,
    )].len() <= history[(cube_key(phase, (#[trigger] rest[j]).0@), rest[j].1)].len() by {
        assert(rest[i] == queue[i + 1]);
        assert(rest[j] == queue[j + 1]);
    }
    assert forall|j: int| 0 <= j < rest.len() implies place[(
        cube_key(phase, (#[trigger] rest[j]).0@),
        rest[j].1,
    )] == done + 1 + j by {
        assert(rest[j] == queue[j + 1]);
    }
}

/// A move that leads to a key that the side has recorded leads to a state
/// that is near.
pub(crate) proof fn lemma_layered_skip(
    phase: Phase,
    start: CubieState,
    history: Map<(u128, QueueDirection), Seq<Move>>,
    queue: Seq<(CubieCube, QueueDirection)>,
    place: Map<(u128, QueueDirection), int>,
    done: int,
    state: CubieState,
    direction: QueueDirection,
    tried: int,
    depth: nat,
)
    requires
        layered(
            phase,
            start,
            history,
            queue,
            place,
            done,
            Some((state, direction)),
            tried,
            depth,
        ),
        0 <= tried < phase.moves().len(),
        history.contains_key(
            (cube_key(phase, state.apply_move(phase.moves()[tried])), direction),
        ),
    ensures
        layered(
            phase,
            start,
            history,
            queue,
            place,
            done,
            Some((state, direction)),
            tried + 1,
            depth,
        ),
{
    reveal(layered);
}

/// A new state is one move deeper than the state that is being expanded,
/// and comes last in the queue.
pub(crate) proof fn lemma_layered_insert(
    phase: Phase,
    start: CubieState,
    history: Map<(u128, QueueDirection), Seq<Move>>,
    queue: Seq<(CubieCube, QueueDirection)>,
    place: Map<(u128, QueueDirection), int>,
    done: int,
    state: CubieState,
    direction: QueueDirection,
    tried: int,
    depth: nat,
    item: (CubieCube, QueueDirection),
)
    requires
        search_inv(phase, start, history, queue, place, done, Some((state, direction)), tried),
        layered(
            phase,
            start,
            history,
            queue,
            place,
            done,
            Some((state, direction)),
            tried,
            depth,
        ),
        0 <= tried < phase.moves().len(),
        item.0@ == state.apply_move(phase.moves()[tried]),
        item.1 == direction,
        !history.contains_key((cube_key(phase, item.0@), direction)),
    ensures
        layered(
            phase,
            start,
            next_history(phase, history, state, direction, tried),
            queue.push(item),
            place.insert((cube_key(phase, item.0@), direction), done + queue.len()),
            done,
            Some((state, direction)),
            tried + 1,
            depth,
        ),
{
    reveal(layered);
    reveal(search_inv);
    let fresh = (cube_key(phase, item.0@), direction);
    let grown = next_history(phase, history, state, direction, tried);
    let longer = queue.push(item);
    let placed = place.insert(fresh, done + queue.len());
    let current = Some((state, direction));
    assert(grown[fresh].len() == depth + 1);
    assert forall|k: u128, d: QueueDirection| (k, d) != fresh && history.contains_key(
        (k, d),
    ) implies grown[(k, d)] == history[(k, d)] && placed[(k, d)] == place[(k, d)] by {}
    assert forall|k: u128, d: QueueDirection| #[trigger] grown.contains_key((k, d)) implies {
        let t = placed[(k, d)];
        let len = grown[(k, d)].len();
        &&& t < done ==> len <= depth
        &&& t >= done ==> depth <= len <= depth + 1
        &&& t < done && current_entry(phase, current) != Some((k, d)) ==> near(
            phase,
            start,
            grown,
            k,
            d,
        )
    } by {
        if (k, d) != fresh {
            assert(history.contains_key((k, d)));
            if place[(k, d)] < done && current_entry(phase, current) != Some((k, d)) {
                lemma_near_grows(phase, start, history, k, d, fresh, grown[fresh]);
            }
        }
    }
    assert forall|j: int| 0 <= j < longer.len() implies #[trigger] grown.contains_key(
        (cube_key(phase, longer[j].0@), longer[j].1),
    ) && (j < queue.len() ==> (cube_key(phase, longer[j].0@), longer[j].1) != fresh) by {
        if j < queue.len() {
            assert(longer[j] == queue[j]);
            assert(queued_sound(phase, start, history, queue[j]));
        }
    }
    assert forall|i: int, j: int| 0 <= i < j < longer.len() implies grown[(
        cube_key(phase, (#[trigger] longer[i]).0@),
        longer[i].1,
    )].len() <= grown[(cube_key(phase, (#[trigger] longer[j]).0@), longer[j].1)].len() by {
        let first = (cube_key(phase, longer[i].0@), longer[i].1);
        let second = (cube_key(phase, longer[j].0@), longer[j].1);
        assert(grown.contains_key(first) && first != fresh);
        assert(longer[i] == queue[i]);
        assert(history.contains_key(first));
        assert(place[first] == done + i);
        if j < queue.len() {
            assert(grown.contains_key(second) && second != fresh);
            assert(longer[j] == queue[j]);
        } else {
            assert(longer[j] == item);
        }
    }
    assert forall|j: int| 0 <= j < longer.len() implies placed[(
        cube_key(phase, (#[trigger] longer[j]).0@),
        longer[j].1,
    )] == done + j by {
        if j < queue.len() {
            assert(grown.contains_key((cube_key(phase, longer[j].0@), longer[j].1)));
            assert(longer[j] == queue[j]);
        } else {
            assert(longer[j] == item);
        }
    }
    assert forall|j: int| 0 <= j < tried + 1 implies grown[(
        cube_key(phase, state.apply_move(#[trigger] phase.moves()[j])),
        direction,
    )].len() <= depth + 1 by {
        let next = (cube_key(phase, state.apply_move(phase.moves()[j])), direction);
        if j < tried {
            assert(history.contains_key(next));
        }
    }
}

/// An entry whose neighbours are near keeps them near when the history
/// gets a new entry.
proof fn lemma_near_grows(
    phase: Phase,
    start: CubieState,
    history: Map<(u128, QueueDirection), Seq<Move>>,
    key: u128,
    direction: QueueDirection,
    entry: (u128, QueueDirection),
    path: Seq<Move>,
)
    requires
        history.contains_key((key, direction)),
        !history.contains_key(entry),
        near(phase, start, history, key, direction),
    ensures
        near(phase, start, history.insert(entry, path), key, direction),
{
    let grown = history.insert(entry, path);
    assert(grown[(key, direction)] == history[(key, direction)]);
    let at = origin(start, direction).apply_moves(history[(key, direction)]);
    assert forall|action: Move| #[trigger] phase.permits(action) implies {
        let next = (cube_key(phase, at.apply_move(action)), direction);
        grown.contains_key(next) && grown[next].len() <= grown[(key, direction)].len() + 1
    } by {
        let next = (cube_key(phase, at.apply_move(action)), direction);
        assert(history.contains_key(next));
        assert(grown[next] == history[next]);
    }
}

/// Once every move of the phase has been tried on the state that is being
/// expanded, its neighbours are near.
pub(crate) proof fn lemma_layered_finish(
    phase: Phase,
    start: CubieState,
    history: Map<(u128, QueueDirection), Seq<Move>>,
    queue: Seq<(CubieCube, QueueDirection)>,
    place: Map<(u128, QueueDirection), int>,
    done: int,
    state: CubieState,
    direction: QueueDirection,
    depth: nat,
)
    requires
        search_inv(
            phase,
            start,
            history,
            queue,
            place,
            done,
            Some((state, direction)),
            phase.moves().len() as int,
        ),
        layered(
            phase,
            start,
            history,
            queue,
            place,
            done,
            Some((state, direction)),
            phase.moves().len() as int,
            depth,
        ),
    ensures
        layered(phase, start, history, queue, place, done, None, 0, depth),
{
    reveal(layered);
    reveal(search_inv);
    let key = cube_key(phase, state);
    assert forall|action: Move| #[trigger] phase.permits(action) implies {
        let next = (cube_key(phase, state.apply_move(action)), direction);
        history.contains_key(next) && history[next].len() <= depth + 1
    } by {
        lemma_permitted_moves(phase, action);
        let j = choose|j: int| 0 <= j < phase.moves().len() && phase.moves()[j] == action;
        assert(phase.moves()[j] == action);
    }
    assert(near(phase, start, history, key, direction));
}

/// While a search is under way, each side has recorded the key of every
/// cube that it reaches by no more moves than the state has that is being
/// expanded, and by a path that is no longer.
pub(crate) proof fn lemma_short_paths_recorded(
    phase: Phase,
    start: CubieState,
    history: Map<(u128, QueueDirection), Seq<Move>>,
    queue: Seq<(CubieCube, QueueDirection)>,
    place: Map<(u128, QueueDirection), int>,
    done: int,
    current: Option<(CubieState, QueueDirection)>,
    tried: int,
    depth: nat,
    direction: QueueDirection,
    path: Seq<Move>,
)
    requires
        current is Some,
        search_is_exact(phase, start),
        search_inv(phase, start, history, queue, place, done, current, tried),
        layered(phase, start, history, queue, place, done, current, tried, depth),
        phase.permits_all(path),
        path.len() <= depth,
    ensures
        history.contains_key(
            (cube_key(phase, origin(start, direction).apply_moves(path)), direction),
        ),
        history[(cube_key(phase, origin(start, direction).apply_moves(path)), direction)].len()
            <= path.len(),
    decreases path.len(),
{
    let from = origin(start, direction);
    lemma_exact_phases_congruent(phase, start);
    assert(search_is_exact(phase, from));
    if path.len() == 0 {
        reveal(layered);
        reveal(search_inv);
    } else {
        let init = path.drop_last();
        let action = path.last();
        assert(phase.permits(path[path.len() - 1]));
        assert forall|i: int| 0 <= i < init.len() implies phase.permits(#[trigger] init[i]) by {
            assert(init[i] == path[i]);
        }
        lemma_short_paths_recorded(
            phase,
            start,
            history,
            queue,
            place,
            done,
            current,
            tried,
            depth,
            direction,
            init,
        );
        let key = cube_key(phase, from.apply_moves(init));
        let recorded = history[(key, direction)];
        assert(recorded.len() < depth);
        assert(near(phase, start, history, key, direction) && entry_sound(
            phase,
            start,
            key,
            direction,
            recorded,
        )) by {
            reveal(layered);
            reveal(search_inv);
        }
        lemma_exact_after_moves(phase, from, init);
        lemma_exact_after_moves(phase, from, recorded);
        lemma_apply_moves_wf(from, init);
        lemma_apply_moves_wf(from, recorded);
        lemma_same_key_same_id(phase, from.apply_moves(recorded), from.apply_moves(init));
        lemma_same_id_after_move(
            phase,
            from.apply_moves(recorded),
            from.apply_moves(init),
            action,
        );
    }
}

/// The inverse of a path that a phase permits is a path that the phase
/// permits.
pub proof fn lemma_inverse_path_permitted(phase: Phase, path: Seq<Move>)
    requires
        phase.permits_all(path),
    ensures
        phase.permits_all(inverse_path(path)),
        inverse_path(path).len() == path.len(),
{
    assert forall|i: int| 0 <= i < inverse_path(path).len() implies phase.permits(
        #[trigger] inverse_path(path)[i],
    ) by {
        let action = path[path.len() - 1 - i];
        assert(phase.permits(action));
        lemma_permitted_moves(phase, action);
    }
}

/// When the sides meet, no two paths meet that are together shorter than
/// the answer less one move.
pub(crate) proof fn lemma_answer_is_short(
    phase: Phase,
    start: CubieState,
    history: Map<(u128, QueueDirection), Seq<Move>>,
    queue: Seq<(CubieCube, QueueDirection)>,
    place: Map<(u128, QueueDirection), int>,
    done: int,
    state: CubieState,
    direction: QueueDirection,
    tried: int,
    depth: nat,
    forward: Seq<Move>,
    backward: Seq<Move>,
)
    requires
        search_is_exact(phase, start),
        search_inv(phase, start, history, queue, place, done, Some((state, direction)), tried),
        layered(
            phase,
            start,
            history,
            queue,
            place,
            done,
            Some((state, direction)),
            tried,
            depth,
        ),
        0 <= tried < phase.moves().len(),
        !history.contains_key(
            (cube_key(phase, state.apply_move(phase.moves()[tried])), direction),
        ),
        history.contains_key(
            (cube_key(phase, state.apply_move(phase.moves()[tried])), direction.opposite()),
        ),
        meets(phase, start, forward, backward),
    ensures
        ({
            let key = cube_key(phase, state.apply_move(phase.moves()[tried]));
            let grown = next_history(phase, history, state, direction, tried);
            grown[(key, QueueDirection::Forward)].len() + grown[(
                key,
                QueueDirection::Backward,
            )].len() <= forward.len() + backward.len() + 1
        }),
{
    let key = cube_key(phase, state.apply_move(phase.moves()[tried]));
    let grown = next_history(phase, history, state, direction, tried);
    let other = history[(key, direction.opposite())].len();
    let current = Some((state, direction));
    assert(grown[(key, direction)].len() == depth + 1 && grown[(key, direction.opposite())]
        == history[(key, direction.opposite())] && other <= depth + 1 && sides_apart(history)) by {
        reveal(layered);
        reveal(search_inv);
    }
    let solved = CubieState::solved();
    let walk = forward + inverse_path(backward);
    let total = forward.len() + backward.len();
    if total + 1 < depth + 1 + other {
        // the walk from the cube to be solved to the solved cube passes a
        // cube that is near enough to both origins to have been recorded by
        // both sides
        lemma_inverse_path_permitted(phase, backward);
        assert(walk.len() == total);
        assert(phase.permits_all(walk)) by {
            assert forall|i: int| 0 <= i < walk.len() implies phase.permits(#[trigger] walk[i]) by {
                if i < forward.len() {
                    assert(walk[i] == forward[i]);
                } else {
                    assert(walk[i] == inverse_path(backward)[i - forward.len()]);
                }
            }
        }
        let cut: int = if total <= depth {
            total as int
        } else {
            depth as int
        };
        let head = walk.take(cut);
        let tail = walk.skip(cut);
        assert(walk =~= head + tail);
        assert(phase.permits_all(head)) by {
            assert forall|i: int| 0 <= i < head.len() implies phase.permits(#[trigger] head[i]) by {
                assert(head[i] == walk[i]);
            }
        }
        assert(phase.permits_all(tail)) by {
            assert forall|i: int| 0 <= i < tail.len() implies phase.permits(#[trigger] tail[i]) by {
                assert(tail[i] == walk[cut + i]);
            }
        }
        lemma_inverse_path_permitted(phase, tail);
        let back = inverse_path(tail);
        let meeting = start.apply_moves(head);
        // the cube at the cut is reached from the solved cube by the
        // inverse of the rest of the walk
        assert(crate::search::is_meeting_path(phase, start, walk));
        lemma_meeting_path_reaches_goal(phase, start, walk);
        lemma_exact_phases_congruent(phase, start);
        lemma_exact_after_moves(phase, start, walk);
        lemma_same_id_after_moves(phase, start.apply_moves(walk), solved, back);
        lemma_apply_moves_concat(start, head, tail);
        lemma_apply_moves_wf(start, head);
        lemma_path_then_inverse(meeting, tail);
        assert(phase_id(phase, meeting) == phase_id(phase, solved.apply_moves(back)));
        lemma_short_paths_recorded(
            phase,
            start,
            history,
            queue,
            place,
            done,
            current,
            tried,
            depth,
            QueueDirection::Forward,
            head,
        );
        lemma_short_paths_recorded(
            phase,
            start,
            history,
            queue,
            place,
            done,
            current,
            tried,
            depth,
            QueueDirection::Backward,
            back,
        );
        let common = cube_key(phase, meeting);
        assert(history.contains_key((common, QueueDirection::Forward)));
        assert(history.contains_key((common, QueueDirection::Backward)));
        assert(false);
    }
}

} // verus!
