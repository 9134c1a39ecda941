//! What holds of an audio cycle from its beginning to its end.

use vstd::prelude::*;

use crate::cycle;
use crate::cycle::{Action, ActionView, Cycle, CycleView, Event, EventView, FpUnit};
use crate::handle;
use crate::handle::DspHandle;
use crate::state::{FloatBits, StateView};

verus! {

/// What a cycle meets with: the state that came, the room for a reply, the content of the
/// status register, and the values that the DSP gives for the parameters it knows.
pub struct Surroundings {
    pub arrived: Option<StateView>,
    pub room: bool,
    pub status: Option<u32>,
    pub readings: Map<i32, FloatBits>,
}

impl Surroundings {
    /// The event that answers an action.
    pub open spec fn answer(self, action: ActionView) -> EventView {
        match action {
            ActionView::ReadStatus => EventView::Status(self.status),
            ActionView::GetParams(_) => EventView::Readings(self.readings),
            ActionView::Finish => EventView::Begin,
            _ => EventView::Done,
        }
    }

    /// The state that came, if its reply can be sent.
    pub open spec fn answerable(self) -> Option<StateView> {
        if self.room {
            self.arrived
        } else {
            None
        }
    }
}

/// The number of actions that may still follow.
pub open spec fn distance(cycle: CycleView) -> nat {
    match cycle {
        CycleView::Idle => 0,
        CycleView::Reporting(_) => 1,
        CycleView::Restoring(_) => 2,
        CycleView::Computing(_, _) => 3,
        CycleView::Flushing(_, _) => 4,
        CycleView::ReadingStatus(_) => 5,
        CycleView::Applying(_) => 6,
    }
}

/// The action fits the cycle: the answer to it is what the cycle waits for.
pub open spec fn fits(cycle: CycleView, action: ActionView) -> bool {
    match cycle {
        CycleView::Idle => action is Finish,
        CycleView::ReadingStatus(_) => action is ReadStatus,
        CycleView::Reporting(_) => action is GetParams,
        _ => action is SetParams || action is WriteStatus || action is Compute,
    }
}

/// The actions that follow `action` until the cycle is over.
pub open spec fn following(
    cycle: CycleView,
    action: ActionView,
    unit: FpUnit,
    around: Surroundings,
) -> Seq<ActionView>
    decreases distance(cycle),
{
    if cycle is Idle {
        Seq::empty()
    } else {
        let (next, asked) = cycle::advanced(
            cycle,
            around.answer(action),
            unit,
            around.arrived,
            around.room,
        );
        seq![asked] + following(next, asked, unit, around)
    }
}

/// The actions of a whole cycle.
pub open spec fn actions(unit: FpUnit, around: Surroundings) -> Seq<ActionView> {
    let (next, asked) = cycle::advanced(
        CycleView::Idle,
        EventView::Begin,
        unit,
        around.arrived,
        around.room,
    );
    seq![asked] + following(next, asked, unit, around)
}

/// The reply that is sent in the rest of the cycle.
pub open spec fn later_reply(
    cycle: CycleView,
    action: ActionView,
    unit: FpUnit,
    around: Surroundings,
) -> Option<StateView>
    decreases distance(cycle),
{
    if cycle is Idle {
        None
    } else {
        let event = around.answer(action);
        match cycle::reply(cycle, event) {
            Some(state) => Some(state),
            None => {
                let (next, asked) = cycle::advanced(
                    cycle,
                    event,
                    unit,
                    around.arrived,
                    around.room,
                );
                later_reply(next, asked, unit, around)
            },
        }
    }
}

/// The reply that a whole cycle sends.
pub open spec fn cycle_reply(unit: FpUnit, around: Surroundings) -> Option<StateView> {
    let (next, asked) = cycle::advanced(
        CycleView::Idle,
        EventView::Begin,
        unit,
        around.arrived,
        around.room,
    );
    later_reply(next, asked, unit, around)
}

/// The answer to an action is always an event that the cycle waits for.
pub proof fn answers_are_awaited(
    cycle: CycleView,
    action: ActionView,
    unit: FpUnit,
    around: Surroundings,
)
    requires
        fits(cycle, action),
    ensures
        cycle.awaits(around.answer(action)),
        ({
            let (next, asked) = cycle::advanced(
                cycle,
                around.answer(action),
                unit,
                around.arrived,
                around.room,
            );
            fits(next, asked)
        }),
{
}

/// The one action, if there is one to make.
pub open spec fn perhaps(action: Option<ActionView>) -> Seq<ActionView> {
    match action {
        Some(a) => seq![a],
        None => Seq::empty(),
    }
}

/// The parameters are set before the computation.
pub open spec fn setting(around: Surroundings) -> Option<ActionView> {
    match around.arrived {
        Some(state) => Some(ActionView::SetParams(state.updates)),
        None => None,
    }
}

/// The status register is written so that denormals are flushed.
pub open spec fn flushing(unit: FpUnit, around: Surroundings) -> Option<ActionView> {
    match around.status {
        Some(status) => Some(ActionView::WriteStatus(status | unit.mask())),
        None => None,
    }
}

/// The status register is written back.
pub open spec fn restoring(around: Surroundings) -> Option<ActionView> {
    match around.status {
        Some(status) => Some(ActionView::WriteStatus(status)),
        None => None,
    }
}

/// The parameters are read after the computation.
pub open spec fn reading(around: Surroundings) -> Option<ActionView> {
    match around.answerable() {
        Some(state) => Some(ActionView::GetParams(state.state.dom())),
        None => None,
    }
}

/// A cycle makes these actions in this order and then is over: it sets the parameters that
/// were updated, if a state came; it reads the status register and, if there is one, writes
/// it; it lets the DSP compute; it writes the register back; and it reads the parameters, if
/// a state came and there is room for the reply.
pub proof fn order_of_actions(unit: FpUnit, around: Surroundings)
    ensures
        actions(unit, around) == perhaps(setting(around)) + seq![ActionView::ReadStatus] + perhaps(
            flushing(unit, around),
        ) + seq![ActionView::Compute] + perhaps(restoring(around)) + perhaps(reading(around))
            + seq![ActionView::Finish],
{
    reveal_with_fuel(following, 8);
    assert(actions(unit, around) =~= perhaps(setting(around)) + seq![ActionView::ReadStatus]
        + perhaps(flushing(unit, around)) + seq![ActionView::Compute] + perhaps(restoring(around))
        + perhaps(reading(around)) + seq![ActionView::Finish]);
}

/// A cycle replies if and only if a state came and there is room, and the reply is that
/// state with the values that the DSP gave.
pub proof fn reply_of_a_cycle(unit: FpUnit, around: Surroundings)
    ensures
        cycle_reply(unit, around) == match around.answerable() {
            Some(state) => Some(state.reported(around.readings)),
            None => None,
        },
{
    reveal_with_fuel(later_reply, 8);
}

/// A reply for which there was room is sent: after the step that asks for the values of the
/// parameters, the step that brings them sends the state that came with these values.
pub proof fn reply_is_sent<T>(
    first: &DspHandle<T>,
    second: &DspHandle<T>,
    third: &DspHandle<T>,
    cycle: Cycle,
    event: Event,
    unit: FpUnit,
    asked: (Cycle, Action),
    answer: Event,
    done: (Cycle, Action),
)
    requires
        handle::stepped(first, second, cycle, event, unit, asked),
        asked.0@ is Reporting,
        answer@ is Readings,
        handle::stepped(second, third, asked.0, answer, unit, done),
    ensures
        third.link().sent == second.link().sent.push(
            asked.0@->Reporting_0.reported(answer@->Readings_0),
        ),
{
}

/// The content of the status register after the actions.
pub open spec fn register_after(content: u32, actions: Seq<ActionView>) -> u32
    decreases actions.len(),
{
    if actions.len() == 0 {
        content
    } else {
        match actions.last() {
            ActionView::WriteStatus(status) => status,
            _ => register_after(content, actions.drop_last()),
        }
    }
}

proof fn register_after_two(content: u32, first: Seq<ActionView>, second: Seq<ActionView>)
    ensures
        register_after(content, first + second) == register_after(
            register_after(content, first),
            second,
        ),
    decreases second.len(),
{
    if second.len() == 0 {
        assert(first + second =~= first);
    } else {
        assert((first + second).drop_last() =~= first + second.drop_last());
        register_after_two(content, first, second.drop_last());
    }
}

proof fn register_after_one(content: u32, action: ActionView)
    ensures
        register_after(content, seq![action]) == match action {
            ActionView::WriteStatus(status) => status,
            _ => content,
        },
{
    assert(seq![action].drop_last() == Seq::<ActionView>::empty());
    reveal_with_fuel(register_after, 2);
}

/// A cycle leaves the status register as it found it, and the DSP computes once, while the
/// register has the flush bits set in addition to what it held.
pub proof fn status_is_restored(unit: FpUnit, around: Surroundings, status: u32)
    requires
        around.status == Some(status),
    ensures
        register_after(status, actions(unit, around)) == status,
        exists|i: int|
            {
                &&& 0 <= i < actions(unit, around).len()
                &&& #[trigger] actions(unit, around)[i] == ActionView::Compute
                &&& register_after(status, actions(unit, around).take(i)) == status | unit.mask()
                &&& forall|j: int|
                    0 <= j < actions(unit, around).len() && #[trigger] actions(unit, around)[j]
                        == ActionView::Compute ==> j == i
            },
{
    order_of_actions(unit, around);
    let flush = ActionView::WriteStatus(status | unit.mask());
    let reset = ActionView::WriteStatus(status);
    let start = perhaps(setting(around)) + seq![ActionView::ReadStatus];
    let before = start + seq![flush];
    let end = perhaps(reading(around)) + seq![ActionView::Finish];
    let all = actions(unit, around);
    assert(all =~= (before + seq![ActionView::Compute] + seq![reset]) + end);

    register_after_two(status, start, seq![flush]);
    register_after_one(register_after(status, start), flush);
    assert(register_after(status, before) == status | unit.mask());

    let after = before + seq![ActionView::Compute];
    register_after_two(status, after, seq![reset]);
    register_after_one(register_after(status, after), reset);
    assert(end.drop_last() =~= perhaps(reading(around)));
    assert(perhaps(reading(around)).len() == 1 ==> perhaps(reading(around)).drop_last()
        == Seq::<ActionView>::empty());
    reveal_with_fuel(register_after, 3);
    assert(register_after(status, end) == status);
    register_after_two(status, after + seq![reset], end);

    let i = before.len() as int;
    assert(all[i] == ActionView::Compute);
    assert(all.take(i) =~= before);
}

/// The flush bits are set and every other bit of the register is kept.
pub proof fn only_flush_bits_change(status: u32, unit: FpUnit)
    ensures
        (status | unit.mask()) & unit.mask() == unit.mask(),
        (status | unit.mask()) & !unit.mask() == status & !unit.mask(),
{
    let mask = unit.mask();
    assert((status | mask) & mask == mask) by (bit_vector);
    assert((status | mask) & !mask == status & !mask) by (bit_vector);
}

} // verus!
