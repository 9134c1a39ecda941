//! The parameter values that travel between the control side and the audio side.

use std::collections::HashMap;

use vstd::prelude::*;

verus! {

/// A parameter value: the bit pattern of an IEEE 754 single-precision number.
///
/// Values are stored, handed over and compared bit for bit; nothing here computes with
/// them.
pub type FloatBits = u32;

/// The bit pattern of positive zero.
pub const ZERO: FloatBits = 0;

/// Parameter values by index, and the values that were set and not yet handed over.
#[derive(Debug)]
pub struct State {
    /// The last known value of every parameter.
    pub state: HashMap<i32, FloatBits>,
    /// The values set since the last hand-over.
    pub updates: HashMap<i32, FloatBits>,
}

/// What a [`State`] holds, as mathematical maps.
#[verifier::ext_equal]
pub struct StateView {
    pub state: Map<i32, FloatBits>,
    pub updates: Map<i32, FloatBits>,
}

impl View for State {
    type V = StateView;

    open spec fn view(&self) -> StateView {
        StateView { state: self.state@, updates: self.updates@ }
    }
}

impl StateView {
    /// The state after `idx` was set to `value`.
    pub open spec fn inserted(self, idx: i32, value: FloatBits) -> StateView {
        StateView {
            state: self.state.insert(idx, value),
            updates: self.updates.insert(idx, value),
        }
    }

    /// The value of a parameter, if it has one.
    pub open spec fn value_of(self, idx: i32) -> Option<FloatBits> {
        if self.state.contains_key(idx) {
            Some(self.state[idx])
        } else {
            None
        }
    }

    /// The state with the values of a reply, if one came.
    pub open spec fn merged(self, reply: Option<StateView>) -> StateView {
        match reply {
            Some(other) => StateView { state: other.state, updates: self.updates },
            None => self,
        }
    }

    /// The state after its updates were handed over.
    pub open spec fn settled(self) -> StateView {
        StateView { state: self.state, updates: Map::empty() }
    }

    /// The state with every parameter that was read at the value that was read. Nothing is
    /// added that the state did not hold.
    pub open spec fn reported(self, readings: Map<i32, FloatBits>) -> StateView {
        StateView {
            state: Map::new(
                |idx: i32| self.state.contains_key(idx),
                |idx: i32|
                    if readings.contains_key(idx) {
                        readings[idx]
                    } else {
                        self.state[idx]
                    },
            ),
            updates: self.updates,
        }
    }
}

/// What a store of values holds after the writes were made to it, first to last.
pub open spec fn written(
    store: Map<i32, FloatBits>,
    writes: Seq<(i32, FloatBits)>,
) -> Map<i32, FloatBits>
    decreases writes.len(),
{
    if writes.len() == 0 {
        store
    } else {
        written(store, writes.drop_last()).insert(writes.last().0, writes.last().1)
    }
}

/// No two writes go to the same parameter.
pub open spec fn distinct(writes: Seq<(i32, FloatBits)>) -> bool {
    forall|i: int, j: int|
        0 <= i < j < writes.len() ==> (#[trigger] writes[i]).0 != (#[trigger] writes[j]).0
}

/// A write to the parameter is among the writes.
pub open spec fn writes_to(writes: Seq<(i32, FloatBits)>, idx: i32) -> bool {
    exists|i: int| 0 <= i < writes.len() && (#[trigger] writes[i]).0 == idx
}

/// One write for each entry of a map, made to an empty store, makes up the map.
proof fn written_whole(writes: Seq<(i32, FloatBits)>, map: Map<i32, FloatBits>)
    requires
        distinct(writes),
        forall|i: int|
            0 <= i < writes.len() ==> map.contains_key((#[trigger] writes[i]).0)
                && map[writes[i].0] == writes[i].1,
        forall|idx: i32| #[trigger] map.contains_key(idx) ==> writes_to(writes, idx),
    ensures
        written(Map::empty(), writes) == map,
    decreases writes.len(),
{
    if writes.len() == 0 {
        assert(map =~= Map::empty());
    } else {
        let front = writes.drop_last();
        let (last, value) = writes.last();
        let rest = map.remove(last);
        assert forall|idx: i32| #[trigger] rest.contains_key(idx) implies writes_to(front, idx) by {
            let i = choose|i: int| 0 <= i < writes.len() && (#[trigger] writes[i]).0 == idx;
            assert(front[i] == writes[i]);
        }
        written_whole(front, rest);
        assert(rest.insert(last, value) =~= map);
    }
}

/// The writes are those of `updates`, each made once, in whatever order.
pub open spec fn lists(writes: Seq<(i32, FloatBits)>, updates: Map<i32, FloatBits>) -> bool {
    &&& distinct(writes)
    &&& written(Map::empty(), writes) == updates
}

impl Clone for State {
    fn clone(&self) -> (copy: Self)
        ensures
            copy@ == self@,
    {
        State { state: self.state.clone(), updates: self.updates.clone() }
    }
}

impl State {
    /// Sets a parameter and records the new value as an update.
    pub fn insert(&mut self, idx: i32, value: FloatBits)
        ensures
            final(self)@ == old(self)@.inserted(idx, value),
            final(self)@.state == old(self)@.state.insert(idx, value),
            final(self)@.updates == old(self)@.updates.insert(idx, value),
    {
        self.updates.insert(idx, value);
        self.state.insert(idx, value);
    }

    /// Takes in a reply, if one came, and returns the state to hand over, if there is room
    /// for it. The updates are kept until they are handed over.
    pub fn exchange(&mut self, reply: Option<State>, room: bool) -> (message: Option<State>)
        ensures
            ({
                let merged = old(self)@.merged(view_of(reply));
                match message {
                    Some(state) => room && state@ == merged && final(self)@ == merged.settled(),
                    None => !room && final(self)@ == merged,
                }
            }),
            final(self)@.state == match reply {
                Some(other) => other@.state,
                None => old(self)@.state,
            },
            room ==> {
                &&& message is Some
                &&& message->Some_0@.state == final(self)@.state
                &&& message->Some_0@.updates == old(self)@.updates
                &&& final(self)@.updates == Map::<i32, FloatBits>::empty()
            },
            !room ==> message is None && final(self)@.updates == old(self)@.updates,
    {
        if let Some(other) = reply {
            self.state = other.state;
        }
        if room {
            let message = self.clone();
            self.updates.clear();
            Some(message)
        } else {
            None
        }
    }

    /// The updates as a list of writes.
    pub fn pending(&self) -> (writes: Vec<(i32, FloatBits)>)
        ensures
            lists(writes@, self@.updates),
            forall|i: int|
                0 <= i < writes@.len() ==> self@.updates.contains_pair(
                    (#[trigger] writes@[i]).0,
                    writes@[i].1,
                ),
            forall|idx: i32| #[trigger]
                self@.updates.contains_key(idx) ==> exists|i: int|
                    0 <= i < writes@.len() && (#[trigger] writes@[i]).0 == idx,
    {
        let mut writes: Vec<(i32, FloatBits)> = Vec::new();
        for (idx, value) in pairs: self.updates.iter()
            invariant
                writes@.len() == pairs.index(),
                forall|i: int|
                    0 <= i < writes@.len() ==> (#[trigger] writes@[i]).0 == *pairs.seq()[i].0
                        && writes@[i].1 == *pairs.seq()[i].1,
        {
            writes.push((*idx, *value));
        }
        proof {
            let entries = vstd::std_specs::iter::IteratorSpec::remaining(&self.updates.iter());
            assert forall|i: int, j: int| 0 <= i < j < writes@.len() implies (
            #[trigger] writes@[i]).0 != (#[trigger] writes@[j]).0 by {
                assert(self.updates@.contains_key(*entries[i].0));
                assert(self.updates@.contains_key(*entries[j].0));
                assert(entries[i] != entries[j]);
            }
            assert forall|idx: i32| #[trigger] self.updates@.contains_key(idx) implies writes_to(
                writes@,
                idx,
            ) by {
                let i = entries.index_of((&idx, &self.updates@[idx]));
                assert(writes@[i].0 == idx);
            }
            written_whole(writes@, self.updates@);
        }
        writes
    }

    /// The indices of the parameters that have a value, each once.
    pub fn indices(&self) -> (list: Vec<i32>)
        ensures
            list@.no_duplicates(),
            list@.to_set() == self@.state.dom(),
    {
        let mut list: Vec<i32> = Vec::new();
        for idx in keys: self.state.keys()
            invariant
                list@.len() == keys.index(),
                forall|i: int| 0 <= i < list@.len() ==> #[trigger] list@[i] == *keys.seq()[i],
        {
            list.push(*idx);
        }
        proof {
            let keys = vstd::std_specs::iter::IteratorSpec::remaining(&self.state.keys());
            assert(list@ == keys.unref());
            assert forall|i: int, j: int| 0 <= i < j < list@.len() implies list@[i]
                != list@[j] by {
                assert(keys[i] != keys[j]);
            }
        }
        list
    }

    /// Takes over the values that were read from the DSP.
    pub fn report(&mut self, readings: &HashMap<i32, FloatBits>)
        ensures
            final(self)@ == old(self)@.reported(readings@),
            final(self)@.state.dom() == old(self)@.state.dom(),
            forall|idx: i32| #[trigger]
                old(self)@.state.contains_key(idx) ==> final(self)@.state[idx]
                    == if readings@.contains_key(idx) {
                    readings@[idx]
                } else {
                    old(self)@.state[idx]
                },
            final(self)@.updates == old(self)@.updates,
    {
        let list = self.indices();
        let ghost before = self@;
        let mut i: usize = 0;
        while i < list.len()
            invariant
                i <= list@.len(),
                list@.to_set() == before.state.dom(),
                self@.updates == before.updates,
                self@.state.dom() == before.state.dom(),
                forall|idx: i32| #[trigger]
                    before.state.contains_key(idx) ==> self@.state[idx] == (if list@.take(
                        i as int,
                    ).contains(idx) {
                        before.reported(readings@).state[idx]
                    } else {
                        before.state[idx]
                    }),
            decreases list@.len() - i,
        {
            let idx = list[i];
            assert(list@.to_set().contains(idx));
            assert(list@.take(i + 1) == list@.take(i as int).push(idx));
            assert(forall|other: i32|
                list@.take(i + 1).contains(other) <==> list@.take(i as int).contains(other) || other
                    == idx) by {
                broadcast use vstd::seq_lib::group_seq_properties;

            }
            if let Some(value) = readings.get(&idx) {
                self.state.insert(idx, *value);
                assert(self@.state.dom() == before.state.dom());
            }
            i = i + 1;
        }
        proof {
            assert(list@.take(i as int) == list@);
            assert forall|idx: i32| #[trigger] before.state.contains_key(idx) implies
                self@.state[idx] == before.reported(readings@).state[idx] by {
                assert(list@.to_set().contains(idx));
            }
            assert(self@.state =~= before.reported(readings@).state);
        }
    }
}

/// What an optional state holds.
pub open spec fn view_of(state: Option<State>) -> Option<StateView> {
    match state {
        Some(s) => Some(s@),
        None => None,
    }
}

} // verus!
