//! One audio cycle as a sequence of requests to the DSP and the processor.
//!
//! The audio side alternates decisions with work that only the DSP or the processor can do.
//! A [`Cycle`] remembers what was asked for last; an [`Event`] brings the answer; an
//! [`Action`] says what to do next.

use std::collections::HashMap;

use vstd::prelude::*;

use crate::state;
use crate::state::{FloatBits, State, StateView};

verus! {

/// The unit that computes with floating-point numbers.
#[derive(Debug, Clone, Copy, PartialEq, Eq, Structural)]
pub enum FpUnit {
    /// The unit of 32-bit and 64-bit ARM processors.
    Arm,
    /// An x86 unit with SSE2.
    Sse2,
    /// An x86 unit with SSE but without SSE2.
    Sse,
    /// Any other unit.
    Other,
}

impl FpUnit {
    /// The bits of the status register that flush denormal numbers to zero.
    pub open spec fn mask(self) -> u32 {
        match self {
            FpUnit::Arm => 0x0100_0000,
            FpUnit::Sse2 => 0x8040,
            FpUnit::Sse => 0x8000,
            FpUnit::Other => 0,
        }
    }

    /// The bits of the status register that flush denormal numbers to zero.
    #[must_use]
    pub fn flush_mask(&self) -> (mask: u32)
        ensures
            mask == self.mask(),
    {
        match self {
            FpUnit::Arm => 0x0100_0000,
            FpUnit::Sse2 => 0x8040,
            FpUnit::Sse => 0x8000,
            FpUnit::Other => 0,
        }
    }
}

/// What the audio side is waiting for.
#[derive(Debug)]
pub enum Cycle {
    /// Nothing: the cycle has not begun, or it is over.
    Idle,
    /// The parameters are being set.
    Applying(State),
    /// The status register is being read.
    ReadingStatus(Option<State>),
    /// The status register, which held this value, is being set to flush denormals.
    Flushing(Option<State>, u32),
    /// The DSP is computing; the status register is to be reset to this value.
    Computing(Option<State>, Option<u32>),
    /// The status register is being reset.
    Restoring(Option<State>),
    /// The parameters are being read.
    Reporting(State),
}

/// What has happened since the last action.
#[derive(Debug)]
pub enum Event {
    /// A new cycle is due.
    Begin,
    /// The action that was asked for is done.
    Done,
    /// The status register was read; `None` where there is none.
    Status(Option<u32>),
    /// The parameters were read; those that the DSP does not know are missing.
    Readings(HashMap<i32, FloatBits>),
}

/// What is to be done next.
#[derive(Debug)]
pub enum Action {
    /// Set these parameters of the DSP, first to last.
    SetParams(Vec<(i32, FloatBits)>),
    /// Read the status register.
    ReadStatus,
    /// Write the status register.
    WriteStatus(u32),
    /// Let the DSP compute.
    Compute,
    /// Read these parameters of the DSP.
    GetParams(Vec<i32>),
    /// Nothing more: the cycle is over.
    Finish,
}

/// What a [`Cycle`] holds.
pub enum CycleView {
    Idle,
    Applying(StateView),
    ReadingStatus(Option<StateView>),
    Flushing(Option<StateView>, u32),
    Computing(Option<StateView>, Option<u32>),
    Restoring(Option<StateView>),
    Reporting(StateView),
}

/// What an [`Event`] brings.
pub enum EventView {
    Begin,
    Done,
    Status(Option<u32>),
    Readings(Map<i32, FloatBits>),
}

/// What an [`Action`] asks for, whatever the order of what it lists.
pub enum ActionView {
    SetParams(Map<i32, FloatBits>),
    ReadStatus,
    WriteStatus(u32),
    Compute,
    GetParams(Set<i32>),
    Finish,
}

impl View for Cycle {
    type V = CycleView;

    open spec fn view(&self) -> CycleView {
        match *self {
            Cycle::Idle => CycleView::Idle,
            Cycle::Applying(state) => CycleView::Applying(state@),
            Cycle::ReadingStatus(state) => CycleView::ReadingStatus(state::view_of(state)),
            Cycle::Flushing(state, status) => CycleView::Flushing(state::view_of(state), status),
            Cycle::Computing(state, status) => CycleView::Computing(state::view_of(state), status),
            Cycle::Restoring(state) => CycleView::Restoring(state::view_of(state)),
            Cycle::Reporting(state) => CycleView::Reporting(state@),
        }
    }
}

impl View for Event {
    type V = EventView;

    open spec fn view(&self) -> EventView {
        match *self {
            Event::Begin => EventView::Begin,
            Event::Done => EventView::Done,
            Event::Status(status) => EventView::Status(status),
            Event::Readings(readings) => EventView::Readings(readings@),
        }
    }
}

impl View for Action {
    type V = ActionView;

    open spec fn view(&self) -> ActionView {
        match *self {
            Action::SetParams(writes) => ActionView::SetParams(
                state::written(Map::empty(), writes@),
            ),
            Action::ReadStatus => ActionView::ReadStatus,
            Action::WriteStatus(status) => ActionView::WriteStatus(status),
            Action::Compute => ActionView::Compute,
            Action::GetParams(list) => ActionView::GetParams(list@.to_set()),
            Action::Finish => ActionView::Finish,
        }
    }
}

impl Action {
    /// Nothing is asked for twice.
    pub open spec fn without_repeats(&self) -> bool {
        match *self {
            Action::SetParams(writes) => state::distinct(writes@),
            Action::GetParams(list) => list@.no_duplicates(),
            _ => true,
        }
    }
}

impl CycleView {
    /// The event is one that the cycle waits for.
    pub open spec fn awaits(self, event: EventView) -> bool {
        match self {
            CycleView::Idle => event is Begin,
            CycleView::ReadingStatus(_) => event is Status,
            CycleView::Reporting(_) => event is Readings,
            _ => event is Done,
        }
    }

    /// The cycle looks for a state that has come from the control side.
    pub open spec fn takes_state(self) -> bool {
        self is Idle
    }

    /// The cycle looks whether a reply can be sent: it has computed, and the status
    /// register needs no reset.
    pub open spec fn checks_room(self) -> bool {
        self is Restoring || (self matches CycleView::Computing(_, status) && status is None)
    }
}

/// What comes after the computation: a report, if a state came and there is room for the
/// reply.
pub open spec fn concluded(state: Option<StateView>, room: bool) -> (CycleView, ActionView) {
    match state {
        Some(s) => if room {
            (CycleView::Reporting(s), ActionView::GetParams(s.state.dom()))
        } else {
            (CycleView::Idle, ActionView::Finish)
        },
        None => (CycleView::Idle, ActionView::Finish),
    }
}

/// The next cycle and action. `arrived` is the state that has come from the control side,
/// and `room` tells whether a reply can be sent; each counts only where the cycle looks at
/// it.
pub open spec fn advanced(
    cycle: CycleView,
    event: EventView,
    unit: FpUnit,
    arrived: Option<StateView>,
    room: bool,
) -> (CycleView, ActionView) {
    match cycle {
        CycleView::Idle => match arrived {
            Some(s) => (CycleView::Applying(s), ActionView::SetParams(s.updates)),
            None => (CycleView::ReadingStatus(None), ActionView::ReadStatus),
        },
        CycleView::Applying(s) => (CycleView::ReadingStatus(Some(s)), ActionView::ReadStatus),
        CycleView::ReadingStatus(state) => match event->Status_0 {
            Some(status) => (
                CycleView::Flushing(state, status),
                ActionView::WriteStatus(status | unit.mask()),
            ),
            None => (CycleView::Computing(state, None), ActionView::Compute),
        },
        CycleView::Flushing(state, status) => (
            CycleView::Computing(state, Some(status)),
            ActionView::Compute,
        ),
        CycleView::Computing(state, status) => match status {
            Some(value) => (CycleView::Restoring(state), ActionView::WriteStatus(value)),
            None => concluded(state, room),
        },
        CycleView::Restoring(state) => concluded(state, room),
        CycleView::Reporting(_) => (CycleView::Idle, ActionView::Finish),
    }
}

/// The reply that goes out with an event: the state that came, with the values that were
/// read.
pub open spec fn reply(cycle: CycleView, event: EventView) -> Option<StateView> {
    match cycle {
        CycleView::Reporting(s) => Some(s.reported(event->Readings_0)),
        _ => None,
    }
}

/// Decides what to ask for after the computation.
fn conclude(state: Option<State>, room: bool) -> (next: (Cycle, Action))
    ensures
        (next.0@, next.1@) == concluded(state::view_of(state), room),
        next.1.without_repeats(),
{
    match state {
        Some(s) => {
            if room {
                let list = s.indices();
                (Cycle::Reporting(s), Action::GetParams(list))
            } else {
                (Cycle::Idle, Action::Finish)
            }
        },
        None => (Cycle::Idle, Action::Finish),
    }
}

/// Decides what to do next, and returns the reply to send, if any.
pub fn advance(
    cycle: Cycle,
    event: Event,
    unit: FpUnit,
    arrived: Option<State>,
    room: bool,
) -> (next: (Cycle, Action, Option<State>))
    requires
        cycle@.awaits(event@),
    ensures
        (next.0@, next.1@) == advanced(cycle@, event@, unit, state::view_of(arrived), room),
        state::view_of(next.2) == reply(cycle@, event@),
        next.1.without_repeats(),
{
    match (cycle, event) {
        (Cycle::Idle, _) => match arrived {
            Some(s) => {
                let writes = s.pending();
                (Cycle::Applying(s), Action::SetParams(writes), None)
            },
            None => (Cycle::ReadingStatus(None), Action::ReadStatus, None),
        },
        (Cycle::Applying(s), _) => (Cycle::ReadingStatus(Some(s)), Action::ReadStatus, None),
        (Cycle::ReadingStatus(state), Event::Status(Some(status))) => (
            Cycle::Flushing(state, status),
            Action::WriteStatus(status | unit.flush_mask()),
            None,
        ),
        (Cycle::ReadingStatus(state), _) => (Cycle::Computing(state, None), Action::Compute, None),
        (Cycle::Flushing(state, status), _) => (
            Cycle::Computing(state, Some(status)),
            Action::Compute,
            None,
        ),
        (Cycle::Computing(state, Some(status)), _) => (
            Cycle::Restoring(state),
            Action::WriteStatus(status),
            None,
        ),
        (Cycle::Computing(state, None), _) => {
            let (cycle, action) = conclude(state, room);
            (cycle, action, None)
        },
        (Cycle::Restoring(state), _) => {
            let (cycle, action) = conclude(state, room);
            (cycle, action, None)
        },
        (Cycle::Reporting(mut s), Event::Readings(readings)) => {
            s.report(&readings);
            (Cycle::Idle, Action::Finish, Some(s))
        },
        (Cycle::Reporting(_), _) => (Cycle::Idle, Action::Finish, None),
    }
}

} // verus!
