//! What becomes of each value when parameters are set, read, handed over and reported.

use vstd::prelude::*;

use crate::channel;
use crate::handle;
use crate::handle::{DspHandle, SetupView, StateHandle};
use crate::laws::control;
use crate::laws::control::Step;
use crate::state;
use crate::state::{FloatBits, State, StateView};

verus! {

/// A state holds what its two maps hold.
pub proof fn state_holds_its_maps(state: State, none: Option<State>)
    requires
        none is None,
    ensures
        state@.state == state.state@,
        state@.updates == state.updates@,
        state::view_of(Some(state)) == Some(state@),
        state::view_of(none) is None,
{
}

/// A parameter that is set is known at the value that it was set to, and that value is
/// pending. Whatever was known or pending of any other parameter stays.
pub proof fn setting_changes_one_parameter(
    state: StateView,
    idx: i32,
    value: FloatBits,
    other: i32,
)
    ensures
        ({
            let after = state.inserted(idx, value);
            &&& after.state.contains_pair(idx, value)
            &&& after.updates.contains_pair(idx, value)
            &&& other != idx ==> forall|v: FloatBits|
                #![auto]
                after.state.contains_pair(other, v) == state.state.contains_pair(other, v)
            &&& other != idx ==> forall|v: FloatBits|
                #![auto]
                after.updates.contains_pair(other, v) == state.updates.contains_pair(other, v)
        }),
{
}

/// A parameter is read at the value that it is known at, and a parameter that is not known
/// has none.
pub proof fn known_values_are_read(state: StateView, idx: i32, value: FloatBits)
    ensures
        state.value_of(idx) == Some(value) <==> state.state.contains_pair(idx, value),
        state.value_of(idx) is None <==> !state.state.contains_key(idx),
{
}

/// A path is read at the value of the parameter that it leads to; a path that leads nowhere
/// has no value.
pub proof fn paths_are_read_where_they_lead(
    setup: SetupView,
    state: StateView,
    path: Seq<char>,
    idx: i32,
    value: FloatBits,
)
    ensures
        setup.paths.contains_pair(path, idx) ==> (setup.value_at(state, path) == Some(value)
            <==> state.state.contains_pair(idx, value)),
        setup.paths.contains_pair(path, idx) ==> (setup.value_at(state, path) is None
            <==> !state.state.contains_key(idx)),
        !setup.paths.contains_key(path) ==> setup.value_at(state, path) is None,
{
}

/// A value that is handed out by reference is that value.
pub proof fn references_stand_for_values(value: &FloatBits, none: Option<&FloatBits>)
    requires
        none is None,
    ensures
        handle::value_behind(Some(value)) == Some(*value),
        handle::value_behind(none) is None,
{
}

/// A reply replaces what is known and nothing that is pending; where none came, all stays.
pub proof fn reply_replaces_what_is_known(state: StateView, reply: StateView)
    ensures
        state.merged(Some(reply)).state == reply.state,
        state.merged(Some(reply)).updates == state.updates,
        state.merged(None).state == state.state,
        state.merged(None).updates == state.updates,
{
}

/// To hand updates over changes nothing that is known, and leaves nothing pending.
pub proof fn hand_over_keeps_what_is_known(state: StateView, idx: i32)
    ensures
        state.settled().state == state.state,
        !state.settled().updates.contains_key(idx),
{
}

/// A report gives each known parameter the value that was read, or leaves it where none was
/// read. It makes no parameter known and touches nothing that is pending.
pub proof fn report_gives_what_was_read(
    state: StateView,
    readings: Map<i32, FloatBits>,
    idx: i32,
    value: FloatBits,
)
    ensures
        ({
            let after = state.reported(readings);
            &&& after.state.contains_key(idx) == state.state.contains_key(idx)
            &&& state.state.contains_key(idx) && readings.contains_pair(idx, value)
                ==> after.state[idx] == value
            &&& state.state.contains_pair(idx, value) && !readings.contains_key(idx)
                ==> after.state[idx] == value
            &&& after.updates == state.updates
        }),
{
}

/// An exchange gives away what is known and what is pending, and takes in a reply, no more.
///
/// Without a reply, what is known stays as it was, whether or not it was handed over; with
/// one, what is known is what the reply holds. With room, one state goes out, which holds
/// what is known then and what was pending, and nothing is pending any more; without room,
/// nothing goes out and all that was pending still is.
pub proof fn exchange_changes_no_value_by_handing_over(before: &StateHandle, after: &StateHandle)
    requires
        handle::exchanged(before, after),
    ensures
        !before.expects() ==> {
            &&& after.values().state == before.values().state
            &&& after.link().taken == before.link().taken
        },
        before.expects() ==> {
            &&& after.link().taken.len() == before.link().taken.len() + 1
            &&& after.link().taken.drop_last() == before.link().taken
            &&& after.values().state == after.link().taken.last().state
        },
        before.has_room() ==> {
            &&& after.link().sent.len() == before.link().sent.len() + 1
            &&& after.link().sent.drop_last() == before.link().sent
            &&& after.link().sent.last().state == after.values().state
            &&& after.link().sent.last().updates == before.values().updates
            &&& forall|idx: i32| !(#[trigger] after.values().updates.contains_key(idx))
        },
        !before.has_room() ==> {
            &&& after.link().sent == before.link().sent
            &&& after.values().updates == before.values().updates
        },
        before.link().sent.len() < before.link().slots ==> before.has_room(),
        after.setup() == before.setup(),
        after.link().slots == before.link().slots,
        after.link().inflow == before.link().inflow,
        after.link().outflow == before.link().outflow,
{
    let arrived = choose|arrived| handle::exchange_with(before, after, arrived);
    assert(handle::exchange_with(before, after, arrived));
    assert(before.expects() ==> after.link().taken.drop_last() =~= before.link().taken);
    assert(before.has_room() ==> after.link().sent.drop_last() =~= before.link().sent);
}

/// A value that was set is read back after the hand-over, until a reply replaces it.
pub proof fn set_value_survives_the_hand_over(
    before: &StateHandle,
    set: &StateHandle,
    after: &StateHandle,
    idx: i32,
    value: FloatBits,
)
    requires
        set.values() == before.values().inserted(idx, value),
        handle::exchanged(set, after),
    ensures
        !set.expects() ==> after.values().value_of(idx) == Some(value),
        set.expects() ==> after.values().value_of(idx)
            == after.link().taken.last().value_of(idx),
        set.has_room() ==> after.link().sent.last().updates.contains_pair(idx, value),
        !set.has_room() ==> after.values().updates.contains_pair(idx, value),
{
    exchange_changes_no_value_by_handing_over(set, after);
}

/// A value that was set is read back as long as no reply comes and nobody sets it again,
/// however often the control thread exchanges states and whatever else it sets.
pub proof fn set_value_is_read_until_a_reply(
    state: StateView,
    idx: i32,
    value: FloatBits,
    steps: Seq<Step>,
)
    requires
        forall|i: int|
            0 <= i < steps.len() ==> match #[trigger] steps[i] {
                Step::Write(other, _) => other != idx,
                Step::Exchange(reply, _) => reply is None,
            },
    ensures
        control::state_after(state.inserted(idx, value), steps).value_of(idx) == Some(value),
    decreases steps.len(),
{
    if steps.len() > 0 {
        let front = steps.drop_last();
        assert forall|i: int| 0 <= i < front.len() implies match #[trigger] front[i] {
            Step::Write(other, _) => other != idx,
            Step::Exchange(reply, _) => reply is None,
        } by {
            assert(front[i] == steps[i]);
        }
        set_value_is_read_until_a_reply(state, idx, value, front);
        assert(steps.last() == steps[steps.len() - 1]);
    }
}

/// Writes to a store leave in it what the last of them wrote, and nothing else is changed.
pub proof fn writes_take_effect_in_order(
    store: Map<i32, FloatBits>,
    writes: Seq<(i32, FloatBits)>,
    idx: i32,
    value: FloatBits,
)
    ensures
        state::written(store, Seq::empty()) == store,
        state::written(store, writes.push((idx, value))) == state::written(store, writes).insert(
            idx,
            value,
        ),
{
    assert(writes.push((idx, value)).drop_last() =~= writes);
}

/// A list of the writes of some updates holds each update once, as it is, and nothing else.
pub proof fn listed_writes_are_the_updates(
    writes: Seq<(i32, FloatBits)>,
    updates: Map<i32, FloatBits>,
)
    ensures
        state::lists(writes, updates) <==> {
            &&& forall|i: int, j: int|
                0 <= i < j < writes.len() ==> (#[trigger] writes[i]).0 != (#[trigger] writes[j]).0
            &&& forall|i: int|
                0 <= i < writes.len() ==> updates.contains_pair(
                    (#[trigger] writes[i]).0,
                    writes[i].1,
                )
            &&& forall|idx: i32| #[trigger]
                updates.contains_key(idx) ==> exists|i: int|
                    0 <= i < writes.len() && (#[trigger] writes[i]).0 == idx
        },
{
    if state::distinct(writes) {
        written_distinct(writes);
        let made = state::written(Map::empty(), writes);
        assert forall|idx: i32| #[trigger] made.contains_key(idx) implies state::writes_to(
            writes,
            idx,
        ) by {
            written_only(writes, idx);
        }
        if forall|i: int|
            0 <= i < writes.len() ==> updates.contains_pair((#[trigger] writes[i]).0, writes[i].1) {
            if forall|idx: i32| #[trigger]
                updates.contains_key(idx) ==> state::writes_to(writes, idx) {
                assert forall|idx: i32| #[trigger] updates.contains_key(idx) implies
                    made.contains_key(idx) && made[idx] == updates[idx] by {
                    let i = choose|i: int|
                        0 <= i < writes.len() && (#[trigger] writes[i]).0 == idx;
                    assert(made.contains_pair(writes[i].0, writes[i].1));
                }
                assert(made =~= updates);
            }
        }
    }
}

proof fn written_distinct(writes: Seq<(i32, FloatBits)>)
    requires
        state::distinct(writes),
    ensures
        forall|i: int|
            0 <= i < writes.len() ==> state::written(Map::empty(), writes).contains_pair(
                (#[trigger] writes[i]).0,
                writes[i].1,
            ),
    decreases writes.len(),
{
    if writes.len() > 0 {
        let front = writes.drop_last();
        written_distinct(front);
        assert forall|i: int| 0 <= i < writes.len() implies state::written(
            Map::empty(),
            writes,
        ).contains_pair((#[trigger] writes[i]).0, writes[i].1) by {
            if i < front.len() {
                assert(front[i] == writes[i]);
                assert(writes[i].0 != writes[writes.len() - 1].0);
            }
        }
    }
}

proof fn written_only(writes: Seq<(i32, FloatBits)>, idx: i32)
    requires
        state::written(Map::empty(), writes).contains_key(idx),
    ensures
        state::writes_to(writes, idx),
    decreases writes.len(),
{
    if writes.len() > 0 {
        let front = writes.drop_last();
        if writes.last().0 == idx {
            assert(writes[writes.len() - 1].0 == idx);
        } else {
            written_only(front, idx);
            let i = choose|i: int| 0 <= i < front.len() && (#[trigger] front[i]).0 == idx;
            assert(writes[i].0 == idx);
        }
    }
}

/// The traffic of a handle is that of its two halves.
pub proof fn traffic_is_that_of_the_halves<T>(control: &StateHandle, audio: &DspHandle<T>)
    ensures
        control.link().slots == channel::slots(control.ends().0),
        control.link().sent == channel::sent(control.ends().0),
        control.link().taken == channel::taken(control.ends().1),
        control.expects() == channel::waiting(control.ends().1),
        control.has_room() == channel::has_room(control.ends().0),
        audio.link().slots == channel::slots(audio.ends().0),
        audio.link().sent == channel::sent(audio.ends().0),
        audio.link().taken == channel::taken(audio.ends().1),
        audio.expects() == channel::waiting(audio.ends().1),
        audio.has_room() == channel::has_room(audio.ends().0),
{
}

} // verus!
