//! What holds of two handles that were made together, over all that is done with them.

use vstd::prelude::*;

use crate::channel;
use crate::cycle::{Action, ActionView, Cycle, CycleView, Event, EventView, FpUnit};
use crate::handle;
use crate::handle::{DspHandle, StateHandle};
use crate::laws::both;
use crate::laws::both::{Move, Pair};
use crate::state;
use crate::state::FloatBits;

verus! {

/// Two handles at one moment, with the audio cycle in progress and the values that the DSP
/// was last told to set.
pub struct Moment<T> {
    pub control: StateHandle,
    pub audio: DspHandle<T>,
    pub cycle: Cycle,
    pub record: Map<i32, FloatBits>,
}

/// What is done with the handles.
pub enum Deed {
    /// A parameter is set, by index or by a path that leads to it.
    Write(i32, FloatBits),
    /// The control thread exchanges states.
    Exchange,
    /// The audio thread makes a step of a cycle and is asked for an action.
    Step(Event, FpUnit, Action),
}

/// The values that the DSP was last told to set, after an action.
pub open spec fn told(record: Map<i32, FloatBits>, action: ActionView) -> Map<i32, FloatBits> {
    match action {
        ActionView::SetParams(updates) => record.union_prefer_right(updates),
        _ => record,
    }
}

/// The moment after a deed, as far as the contracts of the handles say.
pub open spec fn follows<T>(before: Moment<T>, deed: Deed, after: Moment<T>) -> bool {
    match deed {
        Deed::Write(idx, value) => {
            &&& after.control.values() == before.control.values().inserted(idx, value)
            &&& after.control.setup() == before.control.setup()
            &&& after.control.ends() == before.control.ends()
            &&& after.audio == before.audio
            &&& after.cycle == before.cycle
            &&& after.record == before.record
        },
        Deed::Exchange => {
            &&& handle::exchanged(&before.control, &after.control)
            &&& after.audio == before.audio
            &&& after.cycle == before.cycle
            &&& after.record == before.record
        },
        Deed::Step(event, unit, action) => {
            &&& before.cycle@.awaits(event@)
            &&& handle::stepped(
                &before.audio,
                &after.audio,
                before.cycle,
                event,
                unit,
                (after.cycle, action),
            )
            &&& after.control == before.control
            &&& after.record == told(before.record, action@)
        },
    }
}

/// The handles as they are made.
pub open spec fn new_handles<T>(moment: Moment<T>) -> bool {
    let setup = moment.control.setup();
    &&& handle::leads(setup.paths, setup.params)
    &&& moment.control.values().state == handle::initial_values(setup.params)
    &&& moment.control.values().updates == Map::<i32, FloatBits>::empty()
    &&& moment.control.link().fresh()
    &&& moment.audio.link().fresh()
    &&& moment.control.link().slots == 1
    &&& moment.audio.link().slots == 1
    &&& moment.cycle@ is Idle
}

/// The moments are those of two handles from their making on, each coming from the one
/// before by a deed. That they are in step at each moment is what
/// [`DspHandle::belongs_to`] finds of handles that were made together, and these stay so.
pub open spec fn history<T>(moments: Seq<Moment<T>>, deeds: Seq<Deed>) -> bool {
    &&& moments.len() == deeds.len() + 1
    &&& new_handles(moments[0])
    &&& forall|i: int|
        0 <= i < moments.len() ==> {
            let moment = #[trigger] moments[i];
            handle::in_step(&moment.audio, &moment.control)
        }
    &&& forall|i: int|
        0 <= i < deeds.len() ==> follows(moments[i], #[trigger] deeds[i], moments[i + 1])
}

/// The values that were set, first to last.
pub open spec fn sets(deeds: Seq<Deed>) -> Seq<(i32, FloatBits)>
    decreases deeds.len(),
{
    if deeds.len() == 0 {
        Seq::empty()
    } else {
        match deeds.last() {
            Deed::Write(idx, value) => sets(deeds.drop_last()).push((idx, value)),
            _ => sets(deeds.drop_last()),
        }
    }
}

/// Both sides of a moment.
pub open spec fn pair<T>(moment: Moment<T>) -> Pair {
    Pair {
        values: moment.control.values(),
        control: moment.control.link(),
        audio: moment.audio.link(),
        cycle: moment.cycle@,
        record: moment.record,
    }
}

/// The move that a deed is.
pub open spec fn move_of<T>(before: Moment<T>, deed: Deed) -> Move {
    match deed {
        Deed::Write(idx, value) => Move::Write(idx, value),
        Deed::Exchange => Move::Exchange {
            receives: before.control.expects(),
            sends: before.control.has_room(),
        },
        Deed::Step(event, unit, _) => Move::Step {
            event: event@,
            unit,
            receives: before.audio.expects(),
            room: before.audio.has_room(),
            sends: before.audio.has_room(),
        },
    }
}

/// A deed is a move of the two sides: the contracts of the handles fix what they come to.
pub proof fn deed_is_a_move<T>(before: Moment<T>, deed: Deed, after: Moment<T>)
    requires
        follows(before, deed, after),
        handle::in_step(&before.audio, &before.control),
        handle::in_step(&after.audio, &after.control),
        before.control.link().consistent(),
        before.audio.link().consistent(),
    ensures
        pair(before).allows(move_of(before, deed)),
        pair(before).after(move_of(before, deed)) == pair(after),
        after.control.link().consistent(),
        after.audio.link().consistent(),
        after.control.setup() == before.control.setup(),
{
    match deed {
        Deed::Write(_, _) => {},
        Deed::Exchange => {
            let arrived = choose|arrived|
                handle::exchange_with(&before.control, &after.control, arrived);
            if arrived is Some {
                let i = before.control.link().taken.len() as int;
                assert(after.control.link().taken[i] == arrived->Some_0);
                assert(before.audio.link().inflow[i] == before.audio.link().sent[i]);
            }
        },
        Deed::Step(event, unit, action) => {
            let next = (after.cycle, action);
            let arrived = choose|arrived|
                handle::step_with(
                    &before.audio,
                    &after.audio,
                    before.cycle,
                    event,
                    unit,
                    next,
                    arrived,
                );
            if arrived is Some {
                let i = before.audio.link().taken.len() as int;
                assert(after.audio.link().taken[i] == arrived->Some_0);
                assert(before.control.link().inflow[i] == before.control.link().sent[i]);
            }
        },
    }
}

/// Handles that were made together stay so, whatever is done with them.
pub proof fn handles_stay_together<T>(before: Moment<T>, deed: Deed, after: Moment<T>)
    requires
        follows(before, deed, after),
        handle::made_together(&before.audio, &before.control),
    ensures
        handle::made_together(&after.audio, &after.control),
{
}

/// What holds at every moment of a history.
pub open spec fn sound<T>(first: Moment<T>, moment: Moment<T>, set: Seq<(i32, FloatBits)>) -> bool {
    &&& moment.control.link().consistent()
    &&& moment.audio.link().consistent()
    &&& moment.control.setup() == first.control.setup()
    &&& moment.control.link().slots == 1
    &&& both::on_its_way(pair(first), pair(moment), set)
    &&& forall|idx: i32| #[trigger]
        first.control.values().state.contains_key(idx) ==> both::known_everywhere(
            pair(moment),
            idx,
        )
}

/// Every moment of a history is sound.
pub proof fn history_is_sound<T>(moments: Seq<Moment<T>>, deeds: Seq<Deed>, n: int)
    requires
        history(moments, deeds),
        0 <= n <= deeds.len(),
    ensures
        sound(moments[0], moments[n], sets(deeds.take(n))),
    decreases n,
{
    let first = moments[0];
    if n == 0 {
        assert(deeds.take(0) =~= Seq::<Deed>::empty());
        assert(pair(first).fresh());
        both::always_on_its_way(pair(first), Seq::empty());
    } else {
        history_is_sound(moments, deeds, n - 1);
        let before = moments[n - 1];
        let deed = deeds[n - 1];
        let after = moments[n];
        assert(follows(before, deed, moments[n - 1 + 1]));
        deed_is_a_move(before, deed, after);
        let set = sets(deeds.take(n - 1));
        both::move_keeps_on_its_way(pair(first), pair(before), set, move_of(before, deed));
        assert(deeds.take(n).drop_last() =~= deeds.take(n - 1));
        assert forall|idx: i32| #[trigger]
            first.control.values().state.contains_key(idx) implies both::known_everywhere(
            pair(after),
            idx,
        ) by {
            let one = seq![move_of(before, deed)];
            both::known_everywhere_for_good(pair(before), one, idx);
            assert(one.drop_last() =~= Seq::<Move>::empty());
            reveal_with_fuel(both::run, 2);
        }
    }
}

/// A declared parameter has a value at every moment, by its index and by its path.
pub proof fn declared_parameter_is_always_readable<T>(
    moments: Seq<Moment<T>>,
    deeds: Seq<Deed>,
    n: int,
    idx: i32,
)
    requires
        history(moments, deeds),
        0 <= n < moments.len(),
        moments[n].control.setup().params.contains_key(idx),
    ensures
        ({
            let control = moments[n].control;
            let path = control.setup().params[idx].path();
            &&& control.values().value_of(idx) is Some
            &&& control.setup().value_at(control.values(), path) is Some
        }),
{
    history_is_sound(moments, deeds, n);
    let setup = moments[0].control.setup();
    let path = setup.params[idx].path();
    assert(setup.paths.contains_key(path));
    assert(moments[0].control.values().state.contains_key(idx));
    assert(moments[0].control.values().state.contains_key(setup.paths[path]));
}

/// From moment `n` on, the control thread exchanges states, the audio thread makes a whole
/// cycle, the control thread exchanges states again, and the audio thread begins a cycle.
pub open spec fn two_rounds<T>(
    moments: Seq<Moment<T>>,
    deeds: Seq<Deed>,
    n: int,
    again: int,
) -> bool {
    &&& 0 <= n
    &&& n + 2 <= again
    &&& deeds.len() == again + 2
    &&& deeds[n] is Exchange
    &&& moments[n].cycle@ is Idle
    &&& forall|i: int| n < i < again ==> (#[trigger] deeds[i]) is Step
    &&& moments[again].cycle@ is Idle
    &&& deeds[again] is Exchange
    &&& deeds[again + 1] is Step
}

/// In a first step of a cycle the audio thread takes the state that is on its way, so that
/// none is left.
proof fn beginning_takes_all<T>(moments: Seq<Moment<T>>, deeds: Seq<Deed>, n: int)
    requires
        history(moments, deeds),
        0 <= n < deeds.len(),
        deeds[n] is Step,
        moments[n].cycle@ is Idle,
    ensures
        moments[n + 1].audio.link().taken.len() == moments[n + 1].control.link().sent.len(),
        moments[n + 1].control == moments[n].control,
{
    history_is_sound(moments, deeds, n);
    let before = moments[n];
    let after = moments[n + 1];
    assert(follows(before, deeds[n], after));
    assert(handle::in_step(&before.audio, &before.control));
    assert(handle::in_step(&after.audio, &after.control));
    deed_is_a_move(before, deeds[n], after);
}

/// Steps of the audio thread leave the control thread as it is, and once nothing is on its
/// way to the audio thread, nothing is.
proof fn steps_leave_control_alone<T>(
    moments: Seq<Moment<T>>,
    deeds: Seq<Deed>,
    from: int,
    to: int,
)
    requires
        history(moments, deeds),
        0 <= from <= to <= deeds.len(),
        forall|i: int| from <= i < to ==> (#[trigger] deeds[i]) is Step,
        moments[from].audio.link().taken.len() == moments[from].control.link().sent.len(),
    ensures
        moments[to].control == moments[from].control,
        moments[to].audio.link().taken.len() == moments[to].control.link().sent.len(),
        sets(deeds.take(to)) == sets(deeds.take(from)),
    decreases to - from,
{
    if from < to {
        steps_leave_control_alone(moments, deeds, from, to - 1);
        let before = moments[to - 1];
        let after = moments[to];
        assert(deeds[to - 1] is Step);
        assert(follows(before, deeds[to - 1], moments[to - 1 + 1]));
        assert(handle::in_step(&after.audio, &after.control));
        history_is_sound(moments, deeds, to - 1);
        assert(handle::in_step(&before.audio, &before.control));
        deed_is_a_move(before, deeds[to - 1], after);
        assert(deeds.take(to).drop_last() =~= deeds.take(to - 1));
    }
}

/// Two rounds deliver everything. Whatever was done with two handles before, after two
/// rounds nothing is pending or on its way, and of every parameter that was ever set the DSP
/// was last told to set it to the last value that it was set to.
pub proof fn two_rounds_deliver_everything<T>(
    moments: Seq<Moment<T>>,
    deeds: Seq<Deed>,
    n: int,
    again: int,
)
    requires
        history(moments, deeds),
        two_rounds(moments, deeds, n, again),
    ensures
        ({
            let end = moments.last();
            &&& end.control.values().updates == Map::<i32, FloatBits>::empty()
            &&& end.audio.link().taken == end.control.link().sent
            &&& end.record == state::written(moments[0].record, sets(deeds))
            &&& forall|idx: i32| #[trigger]
                state::writes_to(sets(deeds), idx) ==> end.record.contains_key(idx)
                    && end.record[idx] == both::last_set(sets(deeds), idx)
        }),
{
    assert(deeds[n + 1] is Step);
    history_is_sound(moments, deeds, n);
    assert(follows(moments[n], deeds[n], moments[n + 1]));
    beginning_takes_all(moments, deeds, n + 1);
    assert(moments[n + 1 + 1] == moments[n + 2]);
    steps_leave_control_alone(moments, deeds, n + 2, again);

    let settled = moments[again];
    history_is_sound(moments, deeds, again);
    assert(handle::in_step(&settled.audio, &settled.control));
    assert(settled.control.has_room());
    assert(follows(settled, deeds[again], moments[again + 1]));
    beginning_takes_all(moments, deeds, again + 1);
    assert(moments[again + 1 + 1] == moments.last());

    let end = moments.last();
    let set = sets(deeds);
    history_is_sound(moments, deeds, again + 2);
    assert(deeds.take(again + 2) =~= deeds);
    let sent = end.control.link().sent;
    assert(handle::in_step(&end.audio, &end.control));
    assert(sent.take(end.audio.link().taken.len() as int) =~= sent);
    assert(end.record.union_prefer_right(Map::empty()) =~= end.record);
    assert(end.audio.link().taken =~= sent);
    assert forall|idx: i32| #[trigger] state::writes_to(set, idx) implies {
        &&& end.record.contains_key(idx)
        &&& end.record[idx] == both::last_set(set, idx)
    } by {
        both::written_holds_the_last(moments[0].record, set, idx);
    }
}

/// Handles were made together if each sends to the other.
pub proof fn together_means_joined_both_ways<T>(audio: &DspHandle<T>, control: &StateHandle)
    ensures
        handle::made_together(audio, control) <==> channel::joined(
            audio.ends().0,
            control.ends().1,
        ) && channel::joined(control.ends().0, audio.ends().1),
{
}

/// Handles that are in step have taken no more than was sent, have no more on its way than
/// there are slots, and find what is on its way and the slots that are free.
pub proof fn in_step_means_nothing_is_lost<T>(audio: &DspHandle<T>, control: &StateHandle)
    requires
        handle::in_step(audio, control),
    ensures
        audio.link().taken.len() <= control.link().sent.len(),
        control.link().taken.len() <= audio.link().sent.len(),
        control.link().sent.len() <= audio.link().taken.len() + control.link().slots,
        audio.link().sent.len() <= control.link().taken.len() + audio.link().slots,
        audio.link().taken.len() < control.link().sent.len() ==> audio.expects(),
        control.link().taken.len() < audio.link().sent.len() ==> control.expects(),
        control.link().sent.len() < audio.link().taken.len() + control.link().slots
            ==> control.has_room(),
        audio.link().sent.len() < control.link().taken.len() + audio.link().slots
            ==> audio.has_room(),
{
}

} // verus!
