//! What holds of the values that the control thread sets and reads, and of their way to the
//! audio thread and back.

use vstd::prelude::*;

use crate::channel::LinkView;
use crate::handle;
use crate::handle::{SetupView, StateHandle};
use crate::state;
use crate::state::{FloatBits, StateView};
use crate::text;
use crate::widget::NodeView;

verus! {

/// A parameter that was set has the value it was set to, and no other parameter changes.
pub proof fn get_after_set(state: StateView, idx: i32, value: FloatBits, other: i32)
    requires
        other != idx,
    ensures
        state.inserted(idx, value).value_of(idx) == Some(value),
        state.inserted(idx, value).value_of(other) == state.value_of(other),
{
}

/// A second value for the same parameter takes the place of the first.
pub proof fn last_set_wins(state: StateView, idx: i32, first: FloatBits, second: FloatBits)
    ensures
        state.inserted(idx, first).inserted(idx, second) == state.inserted(idx, second),
{
    assert(state.inserted(idx, first).inserted(idx, second) =~= state.inserted(idx, second));
}

/// Two parameters can be set in either order.
pub proof fn sets_commute(state: StateView, a: i32, x: FloatBits, b: i32, y: FloatBits)
    requires
        a != b,
    ensures
        state.inserted(a, x).inserted(b, y) == state.inserted(b, y).inserted(a, x),
{
    assert(state.inserted(a, x).inserted(b, y) =~= state.inserted(b, y).inserted(a, x));
}

/// A value that was set by path is read back by that path.
pub proof fn get_by_path_after_set(
    setup: SetupView,
    state: StateView,
    path: Seq<char>,
    value: FloatBits,
)
    requires
        setup.paths.contains_key(path),
    ensures
        setup.value_at(state.inserted(setup.paths[path], value), path) == Some(value),
{
}

/// At the start every declared parameter has its initial value, by index, and every path of
/// a parameter leads to the initial value of a parameter with that path.
pub proof fn readable_from_the_start(
    setup: SetupView,
    state: StateView,
    params: Map<i32, NodeView>,
    idx: i32,
)
    requires
        handle::leads(setup.paths, params),
        state.state == handle::initial_values(params),
        params.contains_key(idx),
    ensures
        state.value_of(idx) == Some(params[idx].typ.initial()),
        params.contains_key(setup.paths[params[idx].path()]),
        params[setup.paths[params[idx].path()]].path() == params[idx].path(),
        setup.value_at(state, params[idx].path()) == Some(
            params[setup.paths[params[idx].path()]].typ.initial(),
        ),
{
    assert(setup.paths.contains_key(params[idx].path()));
}

/// A path that only one parameter has leads to that parameter.
pub proof fn unique_path_leads_home(
    paths: Map<Seq<char>, i32>,
    params: Map<i32, NodeView>,
    idx: i32,
)
    requires
        handle::leads(paths, params),
        params.contains_key(idx),
        forall|other: i32| #[trigger]
            params.contains_key(other) && params[other].path() == params[idx].path() ==> other
                == idx,
    ensures
        paths.contains_key(params[idx].path()),
        paths[params[idx].path()] == idx,
{
    let path = params[idx].path();
    assert(paths.contains_key(path));
    assert(params.contains_key(paths[path]));
}

/// A path that is set by leaves the values at all other paths as they were: no two paths
/// lead to the same parameter.
pub proof fn other_paths_are_untouched(
    setup: SetupView,
    state: StateView,
    path: Seq<char>,
    other: Seq<char>,
    value: FloatBits,
)
    requires
        handle::leads(setup.paths, setup.params),
        setup.paths.contains_key(path),
        other != path,
    ensures
        setup.paths.contains_key(other) ==> setup.paths[other] != setup.paths[path],
        setup.value_at(state.inserted(setup.paths[path], value), other) == setup.value_at(
            state,
            other,
        ),
{
}

/// The paths are those of the declared parameters.
pub proof fn paths_are_those_of_the_parameters(
    paths: Map<Seq<char>, i32>,
    params: Map<i32, NodeView>,
    path: Seq<char>,
)
    requires
        handle::leads(paths, params),
    ensures
        paths.contains_key(path) <==> exists|idx: i32| #[trigger]
            params.contains_key(idx) && params[idx].path() == path,
{
}

/// A path is listed if and only if some declared parameter has it, and it is listed once.
pub proof fn listed_paths_are_those_of_the_parameters(
    list: Seq<(&String, Option<&FloatBits>)>,
    setup: SetupView,
    state: StateView,
    path: Seq<char>,
)
    requires
        handle::leads(setup.paths, setup.params),
        handle::lists_values(list, setup, state),
    ensures
        (exists|j: int| 0 <= j < list.len() && (#[trigger] list[j]).0@ == path) <==> (exists|
            idx: i32,
        | #[trigger]
            setup.params.contains_key(idx) && setup.params[idx].path() == path),
        forall|j: int, k: int|
            0 <= j < list.len() && 0 <= k < list.len() && (#[trigger] list[j]).0@ == path && (
            #[trigger] list[k]).0@ == path ==> j == k,
{
    paths_are_those_of_the_parameters(setup.paths, setup.params, path);
    text::before_irreflexive(path);
}

/// What the control thread does: it sets a parameter, or it exchanges states, with the reply
/// that came and the room that there was.
pub enum Step {
    Write(i32, FloatBits),
    Exchange(Option<StateView>, bool),
}

/// The state after the steps.
pub open spec fn state_after(state: StateView, steps: Seq<Step>) -> StateView
    decreases steps.len(),
{
    if steps.len() == 0 {
        state
    } else {
        let before = state_after(state, steps.drop_last());
        match steps.last() {
            Step::Write(idx, value) => before.inserted(idx, value),
            Step::Exchange(reply, room) => if room {
                before.merged(reply).settled()
            } else {
                before.merged(reply)
            },
        }
    }
}

/// The states that were handed over in the steps, first to last.
pub open spec fn messages(state: StateView, steps: Seq<Step>) -> Seq<StateView>
    decreases steps.len(),
{
    if steps.len() == 0 {
        Seq::empty()
    } else {
        let earlier = messages(state, steps.drop_last());
        match steps.last() {
            Step::Write(_, _) => earlier,
            Step::Exchange(reply, room) => if room {
                earlier.push(state_after(state, steps.drop_last()).merged(reply))
            } else {
                earlier
            },
        }
    }
}

/// The values that were set in the steps, first to last.
pub open spec fn sets(steps: Seq<Step>) -> Seq<(i32, FloatBits)>
    decreases steps.len(),
{
    if steps.len() == 0 {
        Seq::empty()
    } else {
        match steps.last() {
            Step::Write(idx, value) => sets(steps.drop_last()).push((idx, value)),
            Step::Exchange(_, _) => sets(steps.drop_last()),
        }
    }
}

/// A store of values after the updates of the messages were written to it, first to last.
pub open spec fn delivered(
    store: Map<i32, FloatBits>,
    messages: Seq<StateView>,
) -> Map<i32, FloatBits>
    decreases messages.len(),
{
    if messages.len() == 0 {
        store
    } else {
        delivered(store, messages.drop_last()).union_prefer_right(messages.last().updates)
    }
}

/// An exchange of the handle is a step in this sense: its values and its message are those
/// of the step with the reply that came and the room that there was.
pub proof fn exchange_is_a_step(
    before: &StateHandle,
    after: &StateHandle,
    arrived: Option<StateView>,
)
    requires
        handle::exchange_with(before, after, arrived),
    ensures
        ({
            let steps = seq![Step::Exchange(arrived, before.has_room())];
            &&& state_after(before.values(), steps) == after.values()
            &&& after.link().sent == before.link().sent + messages(before.values(), steps)
        }),
{
    let steps = seq![Step::Exchange(arrived, before.has_room())];
    assert(steps.drop_last() == Seq::<Step>::empty());
    reveal_with_fuel(state_after, 2);
    reveal_with_fuel(messages, 2);
    assert(after.link().sent =~= before.link().sent + messages(before.values(), steps));
}

/// Nothing that was set is lost, and nothing else is handed over. Whatever the control
/// thread does, and whatever replies come: what was handed over, together with what is
/// still pending, has the effect of all that was set, in the order in which it was set.
pub proof fn nothing_set_is_lost(
    state: StateView,
    steps: Seq<Step>,
    store: Map<i32, FloatBits>,
)
    requires
        state.updates == Map::<i32, FloatBits>::empty(),
    ensures
        delivered(store, messages(state, steps)).union_prefer_right(
            state_after(state, steps).updates,
        ) == state::written(store, sets(steps)),
    decreases steps.len(),
{
    if steps.len() == 0 {
        assert(store.union_prefer_right(Map::empty()) =~= store);
    } else {
        let front = steps.drop_last();
        nothing_set_is_lost(state, front, store);
        let before = state_after(state, front);
        let base = delivered(store, messages(state, front));
        match steps.last() {
            Step::Write(idx, value) => {
                assert(sets(steps).drop_last() == sets(front));
                assert(base.union_prefer_right(before.updates.insert(idx, value))
                    =~= base.union_prefer_right(before.updates).insert(idx, value));
            },
            Step::Exchange(reply, room) => {
                if room {
                    assert(messages(state, steps).drop_last() == messages(state, front));
                    let sent = base.union_prefer_right(before.updates);
                    assert(sent.union_prefer_right(Map::empty()) =~= sent);
                }
            },
        }
    }
}

/// Once everything was handed over, the messages alone have the effect of all that was set.
pub proof fn all_delivered_when_none_pending(
    state: StateView,
    steps: Seq<Step>,
    store: Map<i32, FloatBits>,
)
    requires
        state.updates == Map::<i32, FloatBits>::empty(),
        state_after(state, steps).updates == Map::<i32, FloatBits>::empty(),
    ensures
        delivered(store, messages(state, steps)) == state::written(store, sets(steps)),
{
    nothing_set_is_lost(state, steps, store);
    let all = delivered(store, messages(state, steps));
    assert(all.union_prefer_right(Map::empty()) =~= all);
}

/// The writes that a message asks for have the effect of its updates, in whatever order they
/// are listed.
pub proof fn writes_have_the_effect_of_updates(
    store: Map<i32, FloatBits>,
    writes: Seq<(i32, FloatBits)>,
    updates: Map<i32, FloatBits>,
)
    requires
        state::lists(writes, updates),
    ensures
        state::written(store, writes) == store.union_prefer_right(updates),
{
    written_on_top(store, writes);
}

proof fn written_on_top(store: Map<i32, FloatBits>, writes: Seq<(i32, FloatBits)>)
    ensures
        state::written(store, writes) == store.union_prefer_right(
            state::written(Map::empty(), writes),
        ),
    decreases writes.len(),
{
    if writes.len() == 0 {
        assert(store.union_prefer_right(Map::empty()) =~= store);
    } else {
        written_on_top(store, writes.drop_last());
        let own = state::written(Map::empty(), writes.drop_last());
        let (idx, value) = writes.last();
        assert(store.union_prefer_right(own).insert(idx, value) =~= store.union_prefer_right(
            own.insert(idx, value),
        ));
    }
}

/// A reply has values for the same parameters as the message it answers, and its updates.
pub proof fn reply_keeps_parameters(message: StateView, readings: Map<i32, FloatBits>)
    ensures
        message.reported(readings).state.dom() == message.state.dom(),
        message.reported(readings).updates == message.updates,
{
    assert(message.reported(readings).state.dom() =~= message.state.dom());
}

/// A value that was set comes back. The control thread sets a parameter and hands its state
/// over; the audio thread makes the writes, and the DSP, if it knows the parameter, still
/// has the value that was written; then the control thread reads the value that it set,
/// whatever state it was in when the reply came.
pub proof fn set_value_comes_back(
    state: StateView,
    idx: i32,
    value: FloatBits,
    writes: Seq<(i32, FloatBits)>,
    store: Map<i32, FloatBits>,
    readings: Map<i32, FloatBits>,
    later: StateView,
)
    requires
        state::lists(writes, state.inserted(idx, value).updates),
        readings.contains_key(idx) ==> readings[idx] == state::written(store, writes)[idx],
    ensures
        later.merged(Some(state.inserted(idx, value).reported(readings))).value_of(idx) == Some(
            value,
        ),
{
    let message = state.inserted(idx, value);
    writes_have_the_effect_of_updates(store, writes, message.updates);
    assert(message.updates.contains_key(idx));
}

/// What the DSP computes becomes known: a parameter that it has changed by itself is read at
/// its new value once the reply has come.
pub proof fn computed_value_becomes_known(
    message: StateView,
    idx: i32,
    readings: Map<i32, FloatBits>,
    later: StateView,
)
    requires
        message.state.contains_key(idx),
        readings.contains_key(idx),
    ensures
        later.merged(Some(message.reported(readings))).value_of(idx) == Some(readings[idx]),
{
}

/// A parameter that has a value keeps having one, as long as the replies have a value for
/// it; the messages then have one too.
pub proof fn values_stay(state: StateView, steps: Seq<Step>, idx: i32)
    requires
        state.state.contains_key(idx),
        forall|i: int|
            0 <= i < steps.len() ==> ((#[trigger] steps[i]) matches Step::Exchange(reply, _)
                ==> reply matches Some(other) ==> other.state.contains_key(idx)),
    ensures
        state_after(state, steps).state.contains_key(idx),
        forall|i: int|
            0 <= i < messages(state, steps).len() ==> (
            #[trigger] messages(state, steps)[i]).state.contains_key(idx),
    decreases steps.len(),
{
    if steps.len() > 0 {
        let front = steps.drop_last();
        assert forall|i: int| 0 <= i < front.len() implies ((
        #[trigger] front[i]) matches Step::Exchange(reply, _) ==> reply matches Some(other)
            ==> other.state.contains_key(idx)) by {
            assert(front[i] == steps[i]);
        }
        values_stay(state, front, idx);
        assert(steps.last() == steps[steps.len() - 1]);
        let earlier = messages(state, front);
        assert forall|i: int| 0 <= i < messages(state, steps).len() implies (
        #[trigger] messages(state, steps)[i]).state.contains_key(idx) by {
            if i < earlier.len() {
                assert(messages(state, steps)[i] == earlier[i]);
            }
        }
    }
}

/// States arrive in the order in which they were sent: of two sides that belong together,
/// the state that the one has taken in a given place is the state that the other has sent
/// in that place.
pub proof fn states_arrive_in_order(here: LinkView, there: LinkView, i: int)
    requires
        here.paired(there),
        here.consistent(),
        there.consistent(),
    ensures
        0 <= i < here.sent.len() && i < there.taken.len() ==> there.taken[i] == here.sent[i],
        0 <= i < there.sent.len() && i < here.taken.len() ==> here.taken[i] == there.sent[i],
{
}

/// What the one side has taken is the beginning of what the other has sent, as far as it has
/// been fetched.
pub proof fn taken_is_beginning_of_sent(here: LinkView, there: LinkView)
    requires
        here.paired(there),
        here.consistent(),
        there.consistent(),
        there.taken.len() <= here.sent.len(),
    ensures
        there.taken == here.sent.take(there.taken.len() as int),
{
    assert(there.taken =~= here.sent.take(there.taken.len() as int));
}

/// Everything that was set reaches the DSP. If the control thread has sent the messages of
/// its steps and holds no update back, and the audio thread has taken as many states, then
/// the updates that the audio thread was given have the effect of all that was set.
pub proof fn everything_set_reaches_the_dsp(
    control: LinkView,
    audio: LinkView,
    state: StateView,
    steps: Seq<Step>,
    store: Map<i32, FloatBits>,
)
    requires
        control.paired(audio),
        control.consistent(),
        audio.consistent(),
        control.sent == messages(state, steps),
        audio.taken.len() == control.sent.len(),
        state.updates == Map::<i32, FloatBits>::empty(),
        state_after(state, steps).updates == Map::<i32, FloatBits>::empty(),
    ensures
        delivered(store, audio.taken) == state::written(store, sets(steps)),
{
    taken_is_beginning_of_sent(control, audio);
    assert(audio.taken =~= control.sent);
    all_delivered_when_none_pending(state, steps, store);
}

/// A side through which nothing has passed is consistent.
pub proof fn fresh_links_are_consistent(link: LinkView)
    requires
        link.fresh(),
    ensures
        link.consistent(),
{
}

} // verus!
