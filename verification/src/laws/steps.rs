//! What one step of the audio thread asks for, takes in and sends.

use vstd::prelude::*;

use crate::cycle::{Action, Cycle, Event, FpUnit};
use crate::handle;
use crate::handle::DspHandle;
use crate::laws::values;
use crate::state;
use crate::state::State;

verus! {

/// The bits that flush denormal numbers to zero: bit 24 on ARM, bits 15 and 6 with SSE2, bit
/// 15 with SSE alone, and none elsewhere.
pub proof fn flush_bits(unit: FpUnit)
    ensures
        unit.mask() == match unit {
            FpUnit::Arm => 1u32 << 24,
            FpUnit::Sse2 => (1u32 << 15) | (1u32 << 6),
            FpUnit::Sse => 1u32 << 15,
            FpUnit::Other => 0u32,
        },
{
    assert(1u32 << 24 == 0x0100_0000u32) by (bit_vector);
    assert((1u32 << 15) | (1u32 << 6) == 0x8040u32) by (bit_vector);
    assert(1u32 << 15 == 0x8000u32) by (bit_vector);
}

/// The first step of a cycle takes in the state that is waiting, if one is, and has the DSP
/// set exactly the updates of that state; without one, it goes straight to the status
/// register. It sends nothing.
pub proof fn first_step<T>(
    before: &DspHandle<T>,
    after: &DspHandle<T>,
    event: Event,
    unit: FpUnit,
    next: (Cycle, Action),
)
    requires
        handle::stepped(before, after, Cycle::Idle, event, unit, next),
    ensures
        before.expects() ==> {
            let state = after.link().taken.last();
            &&& after.link().taken.len() == before.link().taken.len() + 1
            &&& after.link().taken.drop_last() == before.link().taken
            &&& next.0 matches Cycle::Applying(kept) && kept@ == state
            &&& next.1 matches Action::SetParams(writes) && {
                &&& forall|i: int, j: int|
                    0 <= i < j < writes@.len() ==> (#[trigger] writes@[i]).0 != (
                    #[trigger] writes@[j]).0
                &&& forall|i: int|
                    0 <= i < writes@.len() ==> state.updates.contains_pair(
                        (#[trigger] writes@[i]).0,
                        writes@[i].1,
                    )
                &&& forall|idx: i32| #[trigger]
                    state.updates.contains_key(idx) ==> exists|i: int|
                        0 <= i < writes@.len() && (#[trigger] writes@[i]).0 == idx
            }
        },
        !before.expects() ==> {
            &&& after.link().taken == before.link().taken
            &&& next.0 matches Cycle::ReadingStatus(kept) && kept is None
            &&& next.1 is ReadStatus
        },
        after.link().sent == before.link().sent,
{
    let arrived = choose|arrived|
        handle::step_with(before, after, Cycle::Idle, event, unit, next, arrived);
    assert(handle::step_with(before, after, Cycle::Idle, event, unit, next, arrived));
    if before.expects() {
        assert(after.link().taken.drop_last() =~= before.link().taken);
        let state = after.link().taken.last();
        if let Action::SetParams(writes) = next.1 {
            values::listed_writes_are_the_updates(writes@, state.updates);
        }
    }
}

/// Before the computation, the status register is read once the parameters are set. If there
/// is one, the flush bits are set in addition to what it held, and what it held is
/// remembered. Then the DSP computes. The state that came is kept, and nothing passes
/// between the threads.
pub proof fn steps_before_the_computation<T>(
    before: &DspHandle<T>,
    after: &DspHandle<T>,
    cycle: Cycle,
    event: Event,
    unit: FpUnit,
    next: (Cycle, Action),
)
    requires
        cycle@.awaits(event@),
        handle::stepped(before, after, cycle, event, unit, next),
        cycle is Applying || cycle is ReadingStatus || cycle is Flushing,
    ensures
        cycle matches Cycle::Applying(state) ==> {
            &&& next.0 matches Cycle::ReadingStatus(kept) && state::view_of(kept) == Some(state@)
            &&& next.1 is ReadStatus
        },
        cycle matches Cycle::ReadingStatus(state) ==> match event {
            Event::Status(Some(held)) => {
                &&& next.0 matches Cycle::Flushing(kept, old_status) && old_status == held
                    && state::view_of(kept) == state::view_of(state)
                &&& next.1 == Action::WriteStatus(
                    held | match unit {
                        FpUnit::Arm => 0x0100_0000u32,
                        FpUnit::Sse2 => 0x8040u32,
                        FpUnit::Sse => 0x8000u32,
                        FpUnit::Other => 0u32,
                    },
                )
            },
            _ => {
                &&& next.0 matches Cycle::Computing(kept, old_status) && old_status is None
                    && state::view_of(kept) == state::view_of(state)
                &&& next.1 is Compute
            },
        },
        cycle matches Cycle::Flushing(state, held) ==> {
            &&& next.0 matches Cycle::Computing(kept, old_status) && old_status == Some(held)
                && state::view_of(kept) == state::view_of(state)
            &&& next.1 is Compute
        },
        after.link() == before.link(),
{
}

/// After the computation, the status register is written back to what it held, if there is
/// one. The state that came is kept, and nothing passes between the threads.
pub proof fn step_after_the_computation<T>(
    before: &DspHandle<T>,
    after: &DspHandle<T>,
    state: Option<State>,
    held: u32,
    event: Event,
    unit: FpUnit,
    next: (Cycle, Action),
)
    requires
        handle::stepped(before, after, Cycle::Computing(state, Some(held)), event, unit, next),
    ensures
        next.0 matches Cycle::Restoring(kept) && state::view_of(kept) == state::view_of(state),
        next.1 == Action::WriteStatus(held),
        after.link() == before.link(),
{
}

/// Once the status register is as it was, or if there is none: if a state came and there is
/// room for the reply, exactly the parameters that the state knows are read, each once;
/// otherwise the cycle is over. Nothing passes between the threads.
pub proof fn step_that_concludes<T>(
    before: &DspHandle<T>,
    after: &DspHandle<T>,
    state: Option<State>,
    cycle: Cycle,
    event: Event,
    unit: FpUnit,
    next: (Cycle, Action),
)
    requires
        cycle == Cycle::Restoring(state) || cycle == Cycle::Computing(state, None),
        handle::stepped(before, after, cycle, event, unit, next),
    ensures
        state is Some && before.has_room() ==> {
            &&& next.0 matches Cycle::Reporting(kept) && kept@ == state->Some_0@
            &&& next.1 matches Action::GetParams(list) && {
                &&& forall|i: int, j: int| 0 <= i < j < list@.len() ==> list@[i] != list@[j]
                &&& forall|idx: i32| #[trigger]
                    list@.contains(idx) <==> state->Some_0.state@.contains_key(idx)
            }
        },
        state is None || !before.has_room() ==> next.0 is Idle && next.1 is Finish,
        after.link() == before.link(),
{
    if let Action::GetParams(list) = next.1 {
        assert forall|idx: i32| #[trigger] list@.contains(idx) == list@.to_set().contains(
            idx,
        ) by {}
    }
}

/// The last step of a cycle that reads the parameters sends one state, if there is room: the
/// one that came, with each value that the DSP gave in place of the one it held.
pub proof fn last_step<T>(
    before: &DspHandle<T>,
    after: &DspHandle<T>,
    state: State,
    event: Event,
    unit: FpUnit,
    next: (Cycle, Action),
    idx: i32,
)
    requires
        handle::stepped(before, after, Cycle::Reporting(state), event, unit, next),
        event is Readings,
    ensures
        next.0 is Idle,
        next.1 is Finish,
        after.link().taken == before.link().taken,
        !before.has_room() ==> after.link().sent == before.link().sent,
        before.has_room() ==> {
            let readings = event->Readings_0@;
            let reply = after.link().sent.last();
            &&& after.link().sent.len() == before.link().sent.len() + 1
            &&& after.link().sent.drop_last() == before.link().sent
            &&& reply.updates == state.updates@
            &&& reply.state.contains_key(idx) == state.state@.contains_key(idx)
            &&& state.state@.contains_key(idx) && readings.contains_key(idx)
                ==> reply.state[idx] == readings[idx]
            &&& state.state@.contains_key(idx) && !readings.contains_key(idx)
                ==> reply.state[idx] == state.state@[idx]
        },
{
    if before.has_room() {
        assert(after.link().sent.drop_last() =~= before.link().sent);
    }
}

/// No step touches the DSP or the name of the handle.
pub proof fn steps_leave_the_dsp_alone<T>(
    before: &DspHandle<T>,
    after: &DspHandle<T>,
    cycle: Cycle,
    event: Event,
    unit: FpUnit,
    next: (Cycle, Action),
)
    requires
        handle::stepped(before, after, cycle, event, unit, next),
    ensures
        after.owned() == before.owned(),
        after.title() == before.title(),
        after.link().slots == before.link().slots,
        after.link().inflow == before.link().inflow,
        after.link().outflow == before.link().outflow,
{
}

/// A cycle waits for the answer to what it asked for last: nothing but a beginning when it is
/// idle, the content of the register when that is read, the values when they are read, and
/// word that it is done otherwise.
pub proof fn cycles_wait_for_their_answers(cycle: Cycle, event: Event)
    ensures
        cycle@.awaits(event@) == match cycle {
            Cycle::Idle => event is Begin,
            Cycle::ReadingStatus(_) => event is Status,
            Cycle::Reporting(_) => event is Readings,
            Cycle::Applying(_) => event is Done,
            Cycle::Flushing(_, _) => event is Done,
            Cycle::Computing(_, _) => event is Done,
            Cycle::Restoring(_) => event is Done,
        },
{
}

/// What waits for the audio thread waits until the first step of a cycle, and room for a
/// reply that was found stays until the reply is sent.
pub proof fn steps_keep_what_waits_and_room<T>(
    before: &DspHandle<T>,
    after: &DspHandle<T>,
    cycle: Cycle,
    event: Event,
    unit: FpUnit,
    next: (Cycle, Action),
)
    requires
        handle::stepped(before, after, cycle, event, unit, next),
    ensures
        !(cycle is Idle) ==> after.expects() == before.expects(),
        cycle is Idle || cycle is Applying || cycle is ReadingStatus || cycle is Flushing
            ==> after.has_room() == before.has_room(),
        cycle matches Cycle::Computing(_, held) ==> held is Some ==> after.has_room()
            == before.has_room(),
        cycle is Computing || cycle is Restoring ==> before.has_room() ==> after.has_room(),
        next.0 is Reporting ==> after.has_room(),
{
}

} // verus!
