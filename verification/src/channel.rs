//! The ring buffers of `rtrb` that carry a [`State`] from one side to the other.

use rtrb::{Consumer, Producer, PushError, RingBuffer};
use vstd::prelude::*;

use crate::state::{State, StateView};

verus! {

/// Declares `rtrb::Producer`, the writing half of a ring buffer.
#[verifier::external_type_specification]
#[verifier::external_body]
#[verifier::reject_recursive_types(T)]
pub struct ExProducer<T>(Producer<T>);

/// Declares `rtrb::Consumer`, the reading half of a ring buffer.
#[verifier::external_type_specification]
#[verifier::external_body]
#[verifier::reject_recursive_types(T)]
pub struct ExConsumer<T>(Consumer<T>);

/// The number of slots that the ring buffer of `tx` was made with.
pub uninterp spec fn slots(tx: Producer<State>) -> nat;

/// The states pushed through `tx` so far, first to last.
pub uninterp spec fn sent(tx: Producer<State>) -> Seq<StateView>;

/// The states popped through `rx` so far, first to last.
pub uninterp spec fn taken(rx: Consumer<State>) -> Seq<StateView>;

/// The states that the ring buffer of `tx` is given over its whole life, by their place,
/// counted from zero: what `sent` grows into.
pub uninterp spec fn inflow(tx: Producer<State>) -> Map<int, StateView>;

/// The states that the ring buffer of `rx` is given over its whole life, by their place,
/// counted from zero: what `taken` follows.
pub uninterp spec fn outflow(rx: Consumer<State>) -> Map<int, StateView>;

/// The states are those in the first places of the flow.
pub open spec fn begins(states: Seq<StateView>, flow: Map<int, StateView>) -> bool {
    forall|i: int|
        0 <= i < states.len() ==> flow.contains_key(i) && flow[i] == #[trigger] states[i]
}

/// The next look at `tx`, or the next push through it, finds a free slot.
pub uninterp spec fn has_room(tx: Producer<State>) -> bool;

/// The next pop through `rx` finds a state.
pub uninterp spec fn waiting(rx: Consumer<State>) -> bool;

/// The two halves belong to one ring buffer.
pub uninterp spec fn joined(tx: Producer<State>, rx: Consumer<State>) -> bool;

/// Calls `rtrb::RingBuffer::new` and `RingBuffer::split`.
///
/// The two halves belong to one new ring buffer with the given number of slots, through
/// which nothing has passed; what goes into the first half is what comes out of the second.
/// The upper bound keeps the size of the allocation from overflowing, which would panic.
/// There is at least one slot, so that no two ring buffers share their place in memory.
#[verifier::external_body]
pub(crate) fn channel(capacity: usize) -> (halves: (Producer<State>, Consumer<State>))
    requires
        0 < capacity <= u16::MAX,
    ensures
        slots(halves.0) == capacity,
        sent(halves.0) == Seq::<StateView>::empty(),
        taken(halves.1) == Seq::<StateView>::empty(),
        inflow(halves.0) == outflow(halves.1),
        joined(halves.0, halves.1),
{
    RingBuffer::new(capacity).split()
}

/// Calls `rtrb::Producer::is_full`.
///
/// A look finds the ring buffer full if it finds no free slot, which takes at least as many
/// pushes as there are slots. If it is not full, another thread cannot change that, so the
/// next look or push finds a slot too. If it is full, it may not be full the next moment;
/// nothing is claimed of that. The half is borrowed as mutable only so that one look can be
/// told from the next; the look changes nothing that was sent.
#[verifier::external_body]
pub(crate) fn is_full(tx: &mut Producer<State>) -> (full: bool)
    ensures
        full == !has_room(*old(tx)),
        full ==> slots(*old(tx)) <= sent(*old(tx)).len(),
        !full ==> has_room(*final(tx)),
        slots(*final(tx)) == slots(*old(tx)),
        sent(*final(tx)) == sent(*old(tx)),
        inflow(*final(tx)) == inflow(*old(tx)),
        forall|rx: Consumer<State>| #[trigger]
            joined(*final(tx), rx) == joined(*old(tx), rx),
{
    tx.is_full()
}

/// Calls `rtrb::Producer::push`.
///
/// A state that finds a slot is the next one that the ring buffer is given; one that finds
/// none is handed back.
#[verifier::external_body]
pub(crate) fn push(tx: &mut Producer<State>, state: State) -> (outcome: Result<(), State>)
    ensures
        outcome is Ok == has_room(*old(tx)),
        slots(*final(tx)) == slots(*old(tx)),
        inflow(*final(tx)) == inflow(*old(tx)),
        forall|rx: Consumer<State>| #[trigger]
            joined(*final(tx), rx) == joined(*old(tx), rx),
        match outcome {
            Ok(()) => {
                &&& sent(*final(tx)) == sent(*old(tx)).push(state@)
                &&& begins(sent(*final(tx)), inflow(*final(tx)))
            },
            Err(back) => back@ == state@ && sent(*final(tx)) == sent(*old(tx)),
        },
{
    match tx.push(state) {
        Ok(()) => Ok(()),
        Err(PushError::Full(back)) => Err(back),
    }
}

/// Calls `rtrb::Consumer::pop`.
///
/// States come out in the order in which the ring buffer was given them. None comes out only
/// if the ring buffer was looked at and was empty. Whether one is waiting depends on the
/// other thread; nothing is claimed of that.
#[verifier::external_body]
pub(crate) fn pop(rx: &mut Consumer<State>) -> (arrived: Option<State>)
    ensures
        arrived is Some == waiting(*old(rx)),
        outflow(*final(rx)) == outflow(*old(rx)),
        forall|tx: Producer<State>| #[trigger]
            joined(tx, *final(rx)) == joined(tx, *old(rx)),
        match arrived {
            Some(state) => {
                &&& taken(*final(rx)) == taken(*old(rx)).push(state@)
                &&& begins(taken(*final(rx)), outflow(*final(rx)))
            },
            None => taken(*final(rx)) == taken(*old(rx)),
        },
{
    rx.pop().ok()
}

/// Calls `rtrb::Producer::buffer` and `Consumer::buffer` and compares what they refer to,
/// which is equal if it has one place in memory.
///
/// Two halves of one ring buffer that are held at the same time agree: no more was taken
/// than was sent, and no more is in the ring buffer than it has slots. What was sent and not
/// taken is there for the next pop, and a slot that is free is there for the next push,
/// since nobody else takes from the ring buffer or fills it.
#[verifier::external_body]
pub(crate) fn same_buffer(tx: &Producer<State>, rx: &Consumer<State>) -> (same: bool)
    ensures
        same == joined(*tx, *rx),
        same ==> {
            &&& inflow(*tx) == outflow(*rx)
            &&& taken(*rx).len() <= sent(*tx).len() <= taken(*rx).len() + slots(*tx)
            &&& taken(*rx).len() < sent(*tx).len() ==> waiting(*rx)
            &&& sent(*tx).len() < taken(*rx).len() + slots(*tx) ==> has_room(*tx)
        },
{
    tx.buffer() == rx.buffer()
}

/// The traffic of one side: what it has sent and taken so far, of all that is ever sent to
/// and by the other side.
pub struct LinkView {
    /// The number of slots for what is sent.
    pub slots: nat,
    /// The states sent so far.
    pub sent: Seq<StateView>,
    /// All that this side ever sends, by its place.
    pub inflow: Map<int, StateView>,
    /// The states taken so far.
    pub taken: Seq<StateView>,
    /// All that the other side ever sends, by its place.
    pub outflow: Map<int, StateView>,
}

/// The traffic of the side that holds these two halves.
pub open spec fn link(tx: Producer<State>, rx: Consumer<State>) -> LinkView {
    LinkView {
        slots: slots(tx),
        sent: sent(tx),
        inflow: inflow(tx),
        taken: taken(rx),
        outflow: outflow(rx),
    }
}

impl LinkView {
    /// What was sent and taken so far is the beginning of what is sent and taken in all.
    pub open spec fn consistent(self) -> bool {
        &&& begins(self.sent, self.inflow)
        &&& begins(self.taken, self.outflow)
    }

    /// Nothing was sent or taken.
    pub open spec fn fresh(self) -> bool {
        &&& self.sent == Seq::<StateView>::empty()
        &&& self.taken == Seq::<StateView>::empty()
    }

    /// Each side takes what the other sends.
    pub open spec fn paired(self, other: LinkView) -> bool {
        &&& self.inflow == other.outflow
        &&& other.inflow == self.outflow
    }

    /// The link after `arrived` was taken and `message` was sent, each if there is one.
    pub open spec fn moved(
        self,
        arrived: Option<StateView>,
        message: Option<StateView>,
    ) -> LinkView {
        LinkView {
            sent: match message {
                Some(state) => self.sent.push(state),
                None => self.sent,
            },
            taken: match arrived {
                Some(state) => self.taken.push(state),
                None => self.taken,
            },
            ..self
        }
    }
}

} // verus!
