//! The two ends of a running DSP: the handle of the audio thread and that of the control
//! thread.

use std::collections::HashMap;

use rtrb::{Consumer, Producer};
use vstd::prelude::*;

use crate::builder;
use crate::channel;
use crate::channel::LinkView;
use crate::cycle;
use crate::cycle::{Action, Cycle, Event, FpUnit};
use crate::state;
use crate::state::{FloatBits, State, StateView};
use crate::string_map;
use crate::string_map::StringMap;
use crate::text;
use crate::widget::{Node, NodeView, WidgetType};

verus! {

/// The name of a DSP that declares none.
pub const DEFAULT_NAME: &'static str = "rust_faust";

/// What a DSP has declared. It stays as it is; its paths lead to its parameters.
#[derive(Debug)]
struct Setup {
    name: String,
    meta: StringMap<String>,
    params: HashMap<i32, Node>,
    params_by_path: StringMap<i32>,
}

impl Setup {
    #[verifier::type_invariant]
    spec fn paths_lead(self) -> bool {
        leads(self.params_by_path@, builder::node_views(self.params@))
    }
}

/// The handle of the control thread: it sets and reads parameters.
#[derive(Debug)]
pub struct StateHandle {
    /// The parameter values as the control thread knows them.
    pub state: State,
    setup: Setup,
    main_rx: Consumer<State>,
    main_tx: Producer<State>,
}

/// What a [`StateHandle`] was set up with.
pub struct SetupView {
    pub name: Seq<char>,
    pub meta: Map<Seq<char>, Seq<char>>,
    pub params: Map<i32, NodeView>,
    /// The parameter that each path leads to.
    pub paths: Map<Seq<char>, i32>,
}

impl SetupView {
    /// The value of the parameter that a path leads to, if it leads to one that has a value.
    pub open spec fn value_at(self, state: StateView, path: Seq<char>) -> Option<FloatBits> {
        if self.paths.contains_key(path) {
            state.value_of(self.paths[path])
        } else {
            None
        }
    }
}

/// What an optional reference to a value refers to.
pub open spec fn value_behind(value: Option<&FloatBits>) -> Option<FloatBits> {
    match value {
        Some(v) => Some(*v),
        None => None,
    }
}

/// Every path but the one leads to the value that it led to.
pub open spec fn other_paths_keep(
    setup: SetupView,
    before: StateView,
    after: StateView,
    path: Seq<char>,
) -> bool {
    forall|other: Seq<char>|
        other != path ==> #[trigger] setup.value_at(after, other) == setup.value_at(before, other)
}

/// The list holds every path once, in ascending order, each with the value it leads to.
pub open spec fn lists_values(
    list: Seq<(&String, Option<&FloatBits>)>,
    setup: SetupView,
    state: StateView,
) -> bool {
    &&& forall|j: int, k: int|
        0 <= j < k < list.len() ==> text::before(
            (#[trigger] list[j]).0@,
            (#[trigger] list[k]).0@,
        )
    &&& forall|j: int|
        0 <= j < list.len() ==> setup.paths.contains_key((#[trigger] list[j]).0@) && value_behind(
            list[j].1,
        ) == setup.value_at(state, list[j].0@)
    &&& forall|path: Seq<char>| #[trigger]
        setup.paths.contains_key(path) ==> exists|j: int|
            0 <= j < list.len() && (#[trigger] list[j]).0@ == path
}

impl StateHandle {
    /// What the handle was set up with.
    pub closed spec fn setup(&self) -> SetupView {
        SetupView {
            name: self.setup.name@,
            meta: builder::string_views(self.setup.meta@),
            params: builder::node_views(self.setup.params@),
            paths: self.setup.params_by_path@,
        }
    }

    /// The parameter values as the control thread knows them.
    pub closed spec fn values(&self) -> StateView {
        self.state@
    }

    /// The halves of ring buffers through which the handle sends and receives.
    pub closed spec fn ends(&self) -> (Producer<State>, Consumer<State>) {
        (self.main_tx, self.main_rx)
    }

    /// The traffic with the audio thread.
    pub open spec fn link(&self) -> LinkView {
        channel::link(self.ends().0, self.ends().1)
    }

    /// The next exchange finds a reply of the audio thread.
    pub open spec fn expects(&self) -> bool {
        channel::waiting(self.ends().1)
    }

    /// The next exchange finds room for its message.
    pub open spec fn has_room(&self) -> bool {
        channel::has_room(self.ends().0)
    }

    /// Sets a parameter by index.
    pub fn set_param(&mut self, idx: i32, value: FloatBits)
        ensures
            final(self).values() == old(self).values().inserted(idx, value),
            final(self).values().value_of(idx) == Some(value),
            final(self).setup() == old(self).setup(),
            final(self).ends() == old(self).ends(),
            final(self).expects() == old(self).expects(),
            final(self).has_room() == old(self).has_room(),
    {
        self.state.insert(idx, value);
    }

    /// The value of a parameter by index.
    pub fn get_param(&self, idx: i32) -> (value: Option<&FloatBits>)
        ensures
            value_behind(value) == self.values().value_of(idx),
            match value {
                Some(v) => self.values().state.contains_pair(idx, *v),
                None => !self.values().state.contains_key(idx),
            },
    {
        self.state.state.get(&idx)
    }

    /// Sets a parameter by path.
    pub fn set_by_path(&mut self, path: &str, value: FloatBits) -> (outcome: Result<(), String>)
        ensures
            final(self).setup() == old(self).setup(),
            final(self).ends() == old(self).ends(),
            final(self).expects() == old(self).expects(),
            final(self).has_room() == old(self).has_room(),
            match outcome {
                Ok(()) => {
                    &&& old(self).setup().paths.contains_key(path@)
                    &&& final(self).values() == old(self).values().inserted(
                        old(self).setup().paths[path@],
                        value,
                    )
                    &&& other_paths_keep(
                        old(self).setup(),
                        old(self).values(),
                        final(self).values(),
                        path@,
                    )
                },
                Err(message) => {
                    &&& !old(self).setup().paths.contains_key(path@)
                    &&& final(self).values() == old(self).values()
                    &&& message@ == "No such path"@
                },
            },
    {
        proof {
            use_type_invariant(&self.setup);
        }
        let idx: i32 = match self.setup.params_by_path.get(path) {
            Some(idx) => *idx,
            None => {
                return Err("No such path".to_string());
            },
        };
        self.set_param(idx, value);
        Ok(())
    }

    /// The value of a parameter by path.
    pub fn get_by_path(&self, path: &str) -> (value: Option<&FloatBits>)
        ensures
            value_behind(value) == self.setup().value_at(self.values(), path@),
    {
        match self.setup.params_by_path.get(path) {
            Some(idx) => self.get_param(*idx),
            None => None,
        }
    }

    /// Exchanges states with the audio thread; see [`StateHandle::update`].
    pub fn send(&mut self)
        ensures
            exchanged(old(self), final(self)),
            !old(self).expects() ==> final(self).values().state == old(self).values().state,
    {
        self.update();
    }

    /// Takes in the reply of the audio thread, if one has come, and hands over the state
    /// with its updates, if the last one was fetched.
    pub fn update(&mut self)
        ensures
            exchanged(old(self), final(self)),
            !old(self).expects() ==> final(self).values().state == old(self).values().state,
    {
        let reply = channel::pop(&mut self.main_rx);
        let room = !channel::is_full(&mut self.main_tx);
        let ghost arrived = state::view_of(reply);
        let message = self.state.exchange(reply, room);
        if let Some(state) = message {
            let _ = channel::push(&mut self.main_tx, state);
        }
        assert(exchange_with(old(self), self, arrived));
    }

    /// The parameters that the DSP declares, by index.
    pub fn params(&self) -> (params: &HashMap<i32, Node>)
        ensures
            builder::node_views(params@) == self.setup().params,
            leads(self.setup().paths, self.setup().params),
    {
        proof {
            use_type_invariant(&self.setup);
        }
        &self.setup.params
    }

    /// The paths of all parameters, in ascending order, with the values they lead to.
    pub fn params_by_path(&self) -> (list: Vec<(&String, Option<&FloatBits>)>)
        ensures
            lists_values(list@, self.setup(), self.values()),
            leads(self.setup().paths, self.setup().params),
    {
        proof {
            use_type_invariant(&self.setup);
        }
        let entries = self.setup.params_by_path.entries();
        let mut list: Vec<(&String, Option<&FloatBits>)> = Vec::new();
        let mut i: usize = 0;
        while i < entries.len()
            invariant
                i <= entries@.len(),
                list@.len() == i,
                forall|j: int|
                    0 <= j < i ==> *(#[trigger] list@[j]).0 == entries@[j].0 && value_behind(
                        list@[j].1,
                    ) == self.values().value_of(entries@[j].1),
            decreases entries@.len() - i,
        {
            list.push((&entries[i].0, self.get_param(entries[i].1)));
            i = i + 1;
        }
        proof {
            let paths = self.setup().paths;
            assert forall|j: int| 0 <= j < list@.len() implies paths.contains_key(
                (#[trigger] list@[j]).0@,
            ) && value_behind(list@[j].1) == self.setup().value_at(
                self.values(),
                list@[j].0@,
            ) by {
                string_map::contents_at(entries@, j);
            }
            assert forall|path: Seq<char>| #[trigger] paths.contains_key(path) implies exists|
                j: int,
            | 0 <= j < list@.len() && (#[trigger] list@[j]).0@ == path by {
                let j = choose|j: int| string_map::is_at(entries@, path, j);
                assert(list@[j].0@ == path);
            }
            assert forall|j: int, k: int| 0 <= j < k < list@.len() implies text::before(
                (#[trigger] list@[j]).0@,
                (#[trigger] list@[k]).0@,
            ) by {
                assert(text::before(entries@[j].0@, entries@[k].0@));
            }
        }
        list
    }

    /// The metadata that the DSP declares.
    pub fn meta(&self) -> (meta: &StringMap<String>)
        ensures
            builder::string_views(meta@) == self.setup().meta,
    {
        &self.setup.meta
    }

    /// The name of the DSP.
    pub fn name(&self) -> (name: &str)
        ensures
            name@ == self.setup().name,
    {
        self.setup.name.as_str()
    }
}

/// The values that a handle knows are those in its state, and it is set up with what the DSP
/// has declared.
proof fn handle_holds_its_fields(handle: &StateHandle)
    ensures
        handle.setup().name == handle.setup.name@,
        handle.setup().paths == handle.setup.params_by_path@,
        handle.values().state == handle.state.state@,
        handle.values().updates == handle.state.updates@,
{
}

/// The halves belong to the same ring buffers as before.
pub open spec fn same_lines(
    before: (Producer<State>, Consumer<State>),
    after: (Producer<State>, Consumer<State>),
) -> bool {
    &&& forall|rx: Consumer<State>| #[trigger]
        channel::joined(after.0, rx) == channel::joined(before.0, rx)
    &&& forall|tx: Producer<State>| #[trigger]
        channel::joined(tx, after.1) == channel::joined(tx, before.1)
}

/// One exchange of the control thread, in which `arrived` came in.
pub open spec fn exchange_with(
    before: &StateHandle,
    after: &StateHandle,
    arrived: Option<StateView>,
) -> bool {
    let merged = before.values().merged(arrived);
    let message = if before.has_room() {
        Some(merged)
    } else {
        None
    };
    &&& after.setup() == before.setup()
    &&& same_lines(before.ends(), after.ends())
    &&& arrived is Some <==> before.expects()
    &&& after.link() == before.link().moved(arrived, message)
    &&& before.link().consistent() ==> after.link().consistent()
    &&& before.link().sent.len() < before.link().slots ==> before.has_room()
    &&& after.values() == if before.has_room() {
        merged.settled()
    } else {
        merged
    }
}

/// One exchange of the control thread. If a reply is waiting, it is taken in and replaces the
/// values. If there is room, the values go out with the updates, and these are forgotten; if
/// there is none, they are kept. There is room at least while fewer states were sent than
/// there are slots.
pub open spec fn exchanged(before: &StateHandle, after: &StateHandle) -> bool {
    exists|arrived: Option<StateView>| exchange_with(before, after, arrived)
}

/// The values that the declared parameters start with.
pub open spec fn initial_values(params: Map<i32, NodeView>) -> Map<i32, FloatBits> {
    params.map_values(|node: NodeView| node.typ.initial())
}

/// Every path of a parameter leads to a parameter with that path, and no other path leads
/// anywhere. Of several parameters with one path, any may be the one.
pub open spec fn leads(paths: Map<Seq<char>, i32>, params: Map<i32, NodeView>) -> bool {
    &&& forall|path: Seq<char>| #[trigger]
        paths.contains_key(path) ==> params.contains_key(paths[path])
            && params[paths[path]].path() == path
    &&& forall|idx: i32| #[trigger]
        params.contains_key(idx) ==> paths.contains_key(params[idx].path())
}

/// The name that the metadata gives, or the default.
pub open spec fn declared_name(meta: Map<Seq<char>, Seq<char>>) -> Seq<char> {
    if meta.contains_key("name"@) {
        meta["name"@]
    } else {
        DEFAULT_NAME@
    }
}

/// The handle of the audio thread: it owns the DSP.
#[derive(Debug)]
pub struct DspHandle<T> {
    /// The DSP.
    pub dsp: Box<T>,
    dsp_tx: Producer<State>,
    dsp_rx: Consumer<State>,
    name: String,
}

impl<T> DspHandle<T> {
    /// The DSP that the handle owns.
    pub closed spec fn owned(&self) -> T {
        *self.dsp
    }

    /// The name of the DSP.
    pub closed spec fn title(&self) -> Seq<char> {
        self.name@
    }

    /// The halves of ring buffers through which the handle sends and receives.
    pub closed spec fn ends(&self) -> (Producer<State>, Consumer<State>) {
        (self.dsp_tx, self.dsp_rx)
    }

    /// The traffic with the control thread.
    pub open spec fn link(&self) -> LinkView {
        channel::link(self.ends().0, self.ends().1)
    }

    /// The next cycle finds a state of the control thread.
    pub open spec fn expects(&self) -> bool {
        channel::waiting(self.ends().1)
    }

    /// The next look for room for a reply, or the next reply, finds it.
    pub open spec fn has_room(&self) -> bool {
        channel::has_room(self.ends().0)
    }

    /// Sets up both handles for a DSP that has declared its metadata and its parameters.
    pub fn from_dsp(
        dsp: Box<T>,
        meta: StringMap<String>,
        params: HashMap<i32, Node>,
    ) -> (handles: (Self, StateHandle))
        ensures
            handles.0.owned() == *dsp,
            handles.0.title() == handles.1.setup().name,
            handles.1.setup().name == declared_name(builder::string_views(meta@)),
            meta@.contains_key("name"@) ==> handles.1.setup().name == meta@["name"@]@,
            !meta@.contains_key("name"@) ==> handles.1.setup().name == "rust_faust"@,
            handles.1.setup().meta == builder::string_views(meta@),
            handles.1.setup().params == builder::node_views(params@),
            leads(handles.1.setup().paths, builder::node_views(params@)),
            handles.1.values().state == initial_values(builder::node_views(params@)),
            handles.1.values().state.dom() == params@.dom(),
            forall|idx: i32| #[trigger]
                params@.contains_key(idx) ==> match params@[idx]@.typ {
                    WidgetType::NumEntry(input) => handles.1.values().state[idx] == input.init,
                    WidgetType::HorizontalSlider(input) => handles.1.values().state[idx]
                        == input.init,
                    WidgetType::VerticalSlider(input) => handles.1.values().state[idx]
                        == input.init,
                    _ => handles.1.values().state[idx] == 0,
                },
            handles.1.values().updates == Map::<i32, FloatBits>::empty(),
            handles.0.link().fresh(),
            handles.1.link().fresh(),
            handles.0.link().slots == 1,
            handles.1.link().slots == 1,
            handles.0.link().paired(handles.1.link()),
            made_together(&handles.0, &handles.1),
    {
        let name: String = match meta.get("name") {
            Some(declared) => declared.clone(),
            None => DEFAULT_NAME.to_string(),
        };
        let (dsp_tx, main_rx) = channel::channel(1);
        let (main_tx, dsp_rx) = channel::channel(1);
        let this = DspHandle { name: name.clone(), dsp, dsp_tx, dsp_rx };

        let mut state = State {
            updates: HashMap::with_capacity(params.len()),
            state: HashMap::with_capacity(params.len()),
        };
        let mut params_by_path: StringMap<i32> = StringMap::new();
        let ghost nodes = builder::node_views(params@);
        for (idx, node) in entries: params.iter()
            invariant
                nodes == builder::node_views(params@),
                state@.updates == Map::<i32, FloatBits>::empty(),
                forall|i: int|
                    0 <= i < entries.index() ==> {
                        &&& state@.state.contains_key(*(#[trigger] entries.seq()[i]).0)
                        &&& params_by_path@.contains_key(entries.seq()[i].1@.path())
                    },
                forall|k: i32| #[trigger]
                    state@.state.contains_key(k) ==> nodes.contains_key(k) && state@.state[k]
                        == nodes[k].typ.initial(),
                forall|path: Seq<char>| #[trigger]
                    params_by_path@.contains_key(path) ==> nodes.contains_key(params_by_path@[path])
                        && nodes[params_by_path@[path]].path() == path,
        {
            assert(params@.contains_key(*idx) && params@[*idx] == *node);
            assert(nodes.contains_key(*idx) && nodes[*idx] == node@);
            params_by_path.insert(node.path(), *idx);
            let value = node.widget_type().init_value();
            let ghost values = state@.state;
            state.state.insert(*idx, value);
            assert forall|k: i32| #[trigger] state@.state.contains_key(k) implies {
                &&& nodes.contains_key(k)
                &&& state@.state[k] == nodes[k].typ.initial()
            } by {
                if k != *idx {
                    assert(values.contains_key(k));
                }
            }
        }
        proof {
            let entries = vstd::std_specs::iter::IteratorSpec::remaining(&params.iter());
            assert forall|idx: i32| #[trigger] nodes.contains_key(idx) implies {
                &&& state@.state.contains_key(idx)
                &&& params_by_path@.contains_key(nodes[idx].path())
            } by {
                let i = entries.index_of((&idx, &params@[idx]));
                assert(entries[i] == (&idx, &params@[idx]));
            }
            assert(state@.state =~= initial_values(nodes));
        }
        let setup = Setup { name, meta, params, params_by_path };
        (this, StateHandle { state, setup, main_rx, main_tx })
    }

    /// Makes one step of an audio cycle and says what is to be done next.
    ///
    /// A cycle starts from [`Cycle::Idle`] with [`Event::Begin`] and is over with
    /// [`Action::Finish`]. In between, the caller does what each action asks for and brings
    /// back the event that the returned cycle waits for. A cycle sets the parameters that
    /// the control thread has updated, lets the DSP compute while denormal numbers are
    /// flushed to zero, and replies with the values that the parameters then have.
    pub fn update_and_compute(&mut self, cycle: Cycle, event: Event, unit: FpUnit) -> (next: (
        Cycle,
        Action,
    ))
        requires
            cycle@.awaits(event@),
        ensures
            stepped(old(self), final(self), cycle, event, unit, next),
    {
        let ghost from = cycle;
        let arrived: Option<State> = match &cycle {
            Cycle::Idle => channel::pop(&mut self.dsp_rx),
            _ => None,
        };
        let room: bool = match &cycle {
            Cycle::Computing(_, None) | Cycle::Restoring(_) => !channel::is_full(
                &mut self.dsp_tx,
            ),
            _ => false,
        };
        let ghost came = state::view_of(arrived);
        let (cycle, action, reply) = cycle::advance(cycle, event, unit, arrived, room);
        if let Some(state) = reply {
            let _ = channel::push(&mut self.dsp_tx, state);
        }
        assert(step_with(old(self), self, from, event, unit, (cycle, action), came));
        (cycle, action)
    }

    /// The parameters to set for a state that came from the control thread: its updates.
    pub fn update_params_from_state(&self, state: &State) -> (writes: Vec<(i32, FloatBits)>)
        ensures
            state::lists(writes@, state@.updates),
    {
        state.pending()
    }

    /// Takes the values that the DSP gave over into a state. `readings` holds the values of
    /// the parameters that the DSP knows.
    pub fn update_state_from_params(&self, state: &mut State, readings: &HashMap<i32, FloatBits>)
        ensures
            final(state)@ == old(state)@.reported(readings@),
    {
        state.report(readings);
    }

    /// Whether the two handles were made together.
    pub fn belongs_to(&self, control: &StateHandle) -> (together: bool)
        ensures
            together == made_together(self, control),
            together ==> in_step(self, control),
    {
        channel::same_buffer(&self.dsp_tx, &control.main_rx) && channel::same_buffer(
            &control.main_tx,
            &self.dsp_rx,
        )
    }

    /// The name of the DSP.
    pub fn name(&self) -> (name: &str)
        ensures
            name@ == self.title(),
    {
        self.name.as_str()
    }
}

/// One step of the audio thread, in which `arrived` came in.
pub open spec fn step_with<T>(
    before: &DspHandle<T>,
    after: &DspHandle<T>,
    cycle: Cycle,
    event: Event,
    unit: FpUnit,
    next: (Cycle, Action),
    arrived: Option<StateView>,
) -> bool {
    let reply = cycle::reply(cycle@, event@);
    let message = if before.has_room() {
        reply
    } else {
        None
    };
    &&& (next.0@, next.1@) == cycle::advanced(cycle@, event@, unit, arrived, before.has_room())
    &&& next.1.without_repeats()
    &&& after.owned() == before.owned()
    &&& after.title() == before.title()
    &&& same_lines(before.ends(), after.ends())
    &&& arrived is Some <==> cycle@.takes_state() && before.expects()
    &&& after.link() == before.link().moved(arrived, message)
    &&& before.link().consistent() ==> after.link().consistent()
    &&& !cycle@.takes_state() ==> {
        &&& after.ends().1 == before.ends().1
        &&& after.expects() == before.expects()
    }
    &&& !cycle@.checks_room() && reply is None ==> {
        &&& after.ends().0 == before.ends().0
        &&& after.has_room() == before.has_room()
    }
    &&& cycle@.checks_room() ==> {
        &&& before.has_room() ==> after.has_room()
        &&& before.link().sent.len() < before.link().slots ==> before.has_room()
    }
}

/// One step of the audio thread. The first step of a cycle takes in a state that is waiting,
/// and no other step takes one in; only the last sends one, the reply, if there is room for
/// it. A step that takes in nothing leaves what is waiting as it was, and one that neither
/// looks for room nor replies leaves the room as it was. A look finds room at least while
/// fewer states were sent than there are slots; room that it finds stays, and where it finds
/// none, some may be there the next moment.
pub open spec fn stepped<T>(
    before: &DspHandle<T>,
    after: &DspHandle<T>,
    cycle: Cycle,
    event: Event,
    unit: FpUnit,
    next: (Cycle, Action),
) -> bool {
    exists|arrived: Option<StateView>|
        step_with(before, after, cycle, event, unit, next, arrived)
}

/// Each handle sends to the other.
pub open spec fn made_together<T>(audio: &DspHandle<T>, control: &StateHandle) -> bool {
    &&& channel::joined(audio.ends().0, control.ends().1)
    &&& channel::joined(control.ends().0, audio.ends().1)
}

/// What holds of two handles that were made together, at one moment: neither has taken more
/// than the other has sent, neither has more on its way than there are slots, what is on its
/// way is waiting, and where a slot is free there is room.
pub open spec fn in_step<T>(audio: &DspHandle<T>, control: &StateHandle) -> bool {
    let a = audio.link();
    let c = control.link();
    &&& a.paired(c)
    &&& a.taken.len() <= c.sent.len() <= a.taken.len() + c.slots
    &&& c.taken.len() <= a.sent.len() <= c.taken.len() + a.slots
    &&& a.taken.len() < c.sent.len() ==> audio.expects()
    &&& c.taken.len() < a.sent.len() ==> control.expects()
    &&& c.sent.len() < a.taken.len() + c.slots ==> control.has_room()
    &&& a.sent.len() < c.taken.len() + a.slots ==> audio.has_room()
}

} // verus!
