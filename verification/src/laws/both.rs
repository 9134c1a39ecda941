//! What holds of runs of both sides, whatever each of them does and whenever it looks at what
//! the other has sent.

use vstd::prelude::*;

use crate::channel::LinkView;
use crate::cycle;
use crate::cycle::{ActionView, CycleView, EventView, FpUnit};
use crate::handle;
use crate::handle::SetupView;
use crate::laws::control;
use crate::state;
use crate::state::{FloatBits, StateView};

verus! {

/// Both sides at one moment.
pub struct Pair {
    /// The values and updates of the control thread.
    pub values: StateView,
    /// The traffic of the control thread.
    pub control: LinkView,
    /// The traffic of the audio thread.
    pub audio: LinkView,
    /// The audio cycle in progress.
    pub cycle: CycleView,
    /// The values that the DSP was last told to set, by parameter.
    pub record: Map<i32, FloatBits>,
}

/// What one of the sides does.
pub enum Move {
    /// The control thread sets a parameter.
    Write(i32, FloatBits),
    /// The control thread exchanges states. It may or may not come to see a state that was
    /// sent to it, and to see a free slot for its own.
    Exchange { receives: bool, sends: bool },
    /// The audio thread makes one step of a cycle. It may or may not come to see a state
    /// that was sent to it, to see room for a reply, and to send one.
    Step { event: EventView, unit: FpUnit, receives: bool, room: bool, sends: bool },
}

impl Pair {
    /// The next state for the control thread, if one was sent that it has not taken.
    pub open spec fn for_control(self) -> Option<StateView> {
        if self.control.taken.len() < self.audio.sent.len() {
            Some(self.audio.sent[self.control.taken.len() as int])
        } else {
            None
        }
    }

    /// The next state for the audio thread, if one was sent that it has not taken.
    pub open spec fn for_audio(self) -> Option<StateView> {
        if self.audio.taken.len() < self.control.sent.len() {
            Some(self.control.sent[self.audio.taken.len() as int])
        } else {
            None
        }
    }

    /// A slot is free for what the control thread sends.
    pub open spec fn slot_free(self) -> bool {
        self.control.sent.len() < self.audio.taken.len() + self.control.slots
    }

    /// Both sides after a parameter was set.
    pub open spec fn with_value(self, idx: i32, value: FloatBits) -> Pair {
        Pair { values: self.values.inserted(idx, value), ..self }
    }

    /// Both sides after an exchange of the control thread.
    pub open spec fn with_exchange(self, receives: bool, sends: bool) -> Pair {
        let arrived = if receives {
            self.for_control()
        } else {
            None
        };
        let merged = self.values.merged(arrived);
        let message = if sends {
            Some(merged)
        } else {
            None
        };
        Pair {
            values: if sends {
                merged.settled()
            } else {
                merged
            },
            control: self.control.moved(arrived, message),
            ..self
        }
    }

    /// Both sides after a step of the audio thread.
    pub open spec fn with_step(
        self,
        event: EventView,
        unit: FpUnit,
        receives: bool,
        room: bool,
        sends: bool,
    ) -> Pair {
        let arrived = if receives && self.cycle.takes_state() {
            self.for_audio()
        } else {
            None
        };
        let message = if sends {
            cycle::reply(self.cycle, event)
        } else {
            None
        };
        let (next, asked) = cycle::advanced(self.cycle, event, unit, arrived, room);
        Pair {
            audio: self.audio.moved(arrived, message),
            cycle: next,
            record: match asked {
                ActionView::SetParams(updates) => self.record.union_prefer_right(updates),
                _ => self.record,
            },
            ..self
        }
    }

    /// Both sides after a move.
    pub open spec fn after(self, made: Move) -> Pair {
        match made {
            Move::Write(idx, value) => self.with_value(idx, value),
            Move::Exchange { receives, sends } => self.with_exchange(receives, sends),
            Move::Step { event, unit, receives, room, sends } => self.with_step(
                event,
                unit,
                receives,
                room,
                sends,
            ),
        }
    }

    /// The move can be made: nothing is sent without a free slot, and a step is made with an
    /// event that the cycle waits for.
    pub open spec fn allows(self, made: Move) -> bool {
        match made {
            Move::Write(_, _) => true,
            Move::Exchange { sends, .. } => sends ==> self.slot_free(),
            Move::Step { event, .. } => self.cycle.awaits(event),
        }
    }

    /// Nothing was set, sent or taken, and no cycle has begun.
    pub open spec fn fresh(self) -> bool {
        &&& self.values.updates == Map::<i32, FloatBits>::empty()
        &&& self.control.fresh()
        &&& self.audio.fresh()
        &&& self.cycle is Idle
    }
}

/// Both sides after the moves.
pub open spec fn run(start: Pair, moves: Seq<Move>) -> Pair
    decreases moves.len(),
{
    if moves.len() == 0 {
        start
    } else {
        run(start, moves.drop_last()).after(moves.last())
    }
}

/// Each move can be made when its turn comes.
pub open spec fn allowed(start: Pair, moves: Seq<Move>) -> bool
    decreases moves.len(),
{
    moves.len() > 0 ==> {
        &&& allowed(start, moves.drop_last())
        &&& run(start, moves.drop_last()).allows(moves.last())
    }
}

/// The values that were set in the moves, first to last.
pub open spec fn sets(moves: Seq<Move>) -> Seq<(i32, FloatBits)>
    decreases moves.len(),
{
    if moves.len() == 0 {
        Seq::empty()
    } else {
        match moves.last() {
            Move::Write(idx, value) => sets(moves.drop_last()).push((idx, value)),
            _ => sets(moves.drop_last()),
        }
    }
}

/// The state that the cycle is about.
pub open spec fn carried(cycle: CycleView) -> Option<StateView> {
    match cycle {
        CycleView::Idle => None,
        CycleView::Applying(s) => Some(s),
        CycleView::ReadingStatus(state) => state,
        CycleView::Flushing(state, _) => state,
        CycleView::Computing(state, _) => state,
        CycleView::Restoring(state) => state,
        CycleView::Reporting(s) => Some(s),
    }
}

/// The parameter has a value wherever a state is kept.
pub open spec fn known_everywhere(pair: Pair, idx: i32) -> bool {
    &&& pair.values.state.contains_key(idx)
    &&& forall|i: int|
        0 <= i < pair.control.sent.len() ==> (#[trigger] pair.control.sent[i]).state.contains_key(
            idx,
        )
    &&& forall|i: int|
        0 <= i < pair.audio.sent.len() ==> (#[trigger] pair.audio.sent[i]).state.contains_key(idx)
    &&& carried(pair.cycle) matches Some(s) ==> s.state.contains_key(idx)
}

/// A parameter that has a value wherever a state is kept has one after any moves.
pub proof fn known_everywhere_for_good(start: Pair, moves: Seq<Move>, idx: i32)
    requires
        known_everywhere(start, idx),
    ensures
        known_everywhere(run(start, moves), idx),
    decreases moves.len(),
{
    if moves.len() > 0 {
        known_everywhere_for_good(start, moves.drop_last(), idx);
    }
}

/// A declared parameter has a value in every state that two fresh sides can come to, by its
/// index and by its path.
pub proof fn declared_parameters_have_values(
    start: Pair,
    moves: Seq<Move>,
    setup: SetupView,
    idx: i32,
)
    requires
        start.fresh(),
        start.values.state == handle::initial_values(setup.params),
        handle::leads(setup.paths, setup.params),
        setup.params.contains_key(idx),
    ensures
        run(start, moves).values.value_of(idx) is Some,
        setup.value_at(run(start, moves).values, setup.params[idx].path()) is Some,
{
    known_everywhere_for_good(start, moves, idx);
    let path = setup.params[idx].path();
    assert(setup.paths.contains_key(path));
    known_everywhere_for_good(start, moves, setup.paths[path]);
}

/// What was set is on its way: what the DSP was told to set is what the states that the
/// audio thread has taken ask for, and all that was sent, together with what is still
/// pending, has the effect of all that was set. No more states are on their way to the audio
/// thread than there are slots.
pub open spec fn on_its_way(start: Pair, pair: Pair, set: Seq<(i32, FloatBits)>) -> bool {
    let taken = pair.audio.taken.len();
    &&& taken <= pair.control.sent.len() <= taken + pair.control.slots
    &&& pair.record == control::delivered(start.record, pair.control.sent.take(taken as int))
    &&& control::delivered(start.record, pair.control.sent).union_prefer_right(
        pair.values.updates,
    ) == state::written(start.record, set)
}

/// One move keeps what was set on its way.
pub proof fn move_keeps_on_its_way(start: Pair, pair: Pair, set: Seq<(i32, FloatBits)>, made: Move)
    requires
        on_its_way(start, pair, set),
        pair.allows(made),
    ensures
        on_its_way(
            start,
            pair.after(made),
            match made {
                Move::Write(idx, value) => set.push((idx, value)),
                _ => set,
            },
        ),
{
    let later = pair.after(made);
    let sent = pair.control.sent;
    let taken = pair.audio.taken.len() as int;
    let base = control::delivered(start.record, sent);
    match made {
        Move::Write(idx, value) => {
            assert(set.push((idx, value)).drop_last() =~= set);
            assert(base.union_prefer_right(pair.values.updates.insert(idx, value))
                =~= base.union_prefer_right(pair.values.updates).insert(idx, value));
        },
        Move::Exchange { receives, sends } => {
            if sends {
                assert(later.control.sent.drop_last() =~= sent);
                let all = base.union_prefer_right(pair.values.updates);
                assert(all.union_prefer_right(Map::empty()) =~= all);
                assert(later.control.sent.take(taken) =~= sent.take(taken));
            }
        },
        Move::Step { event, unit, receives, room, sends } => {
            if later.audio.taken.len() > taken {
                assert(sent.take(taken + 1).drop_last() =~= sent.take(taken));
                assert(sent.take(taken + 1).last() == sent[taken]);
            }
        },
    }
}

/// Whatever two fresh sides do, what was set is on its way.
pub proof fn always_on_its_way(start: Pair, moves: Seq<Move>)
    requires
        start.fresh(),
        allowed(start, moves),
    ensures
        on_its_way(start, run(start, moves), sets(moves)),
    decreases moves.len(),
{
    if moves.len() == 0 {
        assert(start.record.union_prefer_right(Map::empty()) =~= start.record);
        assert(start.control.sent.take(0) =~= start.control.sent);
    } else {
        always_on_its_way(start, moves.drop_last());
        move_keeps_on_its_way(
            start,
            run(start, moves.drop_last()),
            sets(moves.drop_last()),
            moves.last(),
        );
    }
}

/// The last value that the parameter was set to.
pub open spec fn last_set(set: Seq<(i32, FloatBits)>, idx: i32) -> FloatBits
    recommends
        state::writes_to(set, idx),
    decreases set.len(),
{
    if set.len() == 0 {
        state::ZERO
    } else if set.last().0 == idx {
        set.last().1
    } else {
        last_set(set.drop_last(), idx)
    }
}

/// A store that the values were written to holds the last value of each parameter.
pub proof fn written_holds_the_last(
    store: Map<i32, FloatBits>,
    set: Seq<(i32, FloatBits)>,
    idx: i32,
)
    requires
        state::writes_to(set, idx),
    ensures
        state::written(store, set).contains_key(idx),
        state::written(store, set)[idx] == last_set(set, idx),
    decreases set.len(),
{
    if set.last().0 != idx {
        let front = set.drop_last();
        let i = choose|i: int| 0 <= i < set.len() && (#[trigger] set[i]).0 == idx;
        assert(front[i] == set[i]);
        written_holds_the_last(store, front, idx);
    }
}

} // verus!
