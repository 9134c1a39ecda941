use std::collections::HashMap;

use faust_state::builder::{MetaBuilder, ParamsBuilder};
use faust_state::cycle::{advance, Action, Cycle, Event, FpUnit};
use faust_state::handle::{DspHandle, StateHandle};
use faust_state::state::State;

fn bits(value: f32) -> u32 {
    value.to_bits()
}

/// A DSP with two inputs, a meter that counts computations, and a status register.
struct Rig {
    params: HashMap<i32, u32>,
    status: Option<u32>,
    seen_while_computing: Vec<Option<u32>>,
}

const VOLUME: i32 = 10;
const CUTOFF: i32 = 11;
const METER: i32 = 12;

fn set_up(name: Option<&str>) -> (DspHandle<Rig>, StateHandle) {
    let mut meta = MetaBuilder::new();
    if let Some(name) = name {
        meta.declare("name", name);
    }
    let mut ui = ParamsBuilder::new();
    ui.open_vertical_box("outer");
    ui.add_horizontal_slider("volume", VOLUME, bits(0.5), bits(0.0), bits(1.0), bits(0.01));
    ui.open_vertical_box("filter");
    ui.add_num_entry("cutoff", CUTOFF, bits(440.0), bits(20.0), bits(20000.0), bits(1.0));
    ui.close_box();
    ui.add_vertical_bargraph("meter", METER, bits(0.0), bits(100.0));
    ui.close_box();
    let mut params = HashMap::new();
    params.insert(VOLUME, bits(0.5));
    params.insert(CUTOFF, bits(440.0));
    params.insert(METER, bits(0.0));
    let rig = Rig { params, status: Some(0x1f80), seen_while_computing: Vec::new() };
    DspHandle::from_dsp(Box::new(rig), meta.finish(), ui.finish())
}

/// Runs one cycle and returns the names of the actions.
fn run(handle: &mut DspHandle<Rig>) -> Vec<String> {
    let mut names = Vec::new();
    let mut cycle = Cycle::Idle;
    let mut event = Event::Begin;
    loop {
        let (next, action) = handle.update_and_compute(cycle, event, FpUnit::Sse2);
        cycle = next;
        match action {
            Action::SetParams(writes) => {
                names.push(format!("set {}", writes.len()));
                for (idx, value) in writes {
                    handle.dsp.params.insert(idx, value);
                }
                event = Event::Done;
            }
            Action::ReadStatus => {
                names.push("read".to_string());
                event = Event::Status(handle.dsp.status);
            }
            Action::WriteStatus(status) => {
                names.push(format!("write {:x}", status));
                handle.dsp.status = Some(status);
                event = Event::Done;
            }
            Action::Compute => {
                names.push("compute".to_string());
                let status = handle.dsp.status;
                handle.dsp.seen_while_computing.push(status);
                let count = f32::from_bits(handle.dsp.params[&METER]) + 1.0;
                handle.dsp.params.insert(METER, bits(count));
                event = Event::Done;
            }
            Action::GetParams(list) => {
                names.push(format!("get {}", list.len()));
                let mut readings = HashMap::new();
                for idx in list {
                    if let Some(value) = handle.dsp.params.get(&idx) {
                        readings.insert(idx, *value);
                    }
                }
                event = Event::Readings(readings);
            }
            Action::Finish => {
                assert!(matches!(cycle, Cycle::Idle));
                return names;
            }
        }
    }
}

#[test]
fn name_comes_from_the_metadata() {
    let (audio, control) = set_up(Some("filter"));
    assert_eq!(audio.name(), "filter");
    assert_eq!(control.name(), "filter");
    assert_eq!(control.meta().get("name"), Some(&"filter".to_string()));
}

#[test]
fn name_has_a_default() {
    let (audio, control) = set_up(None);
    assert_eq!(audio.name(), "rust_faust");
    assert_eq!(control.name(), "rust_faust");
    assert_eq!(control.meta().get("name"), None);
}

#[test]
fn parameters_start_with_their_initial_values() {
    let (_audio, control) = set_up(None);
    assert_eq!(control.get_param(VOLUME), Some(&bits(0.5)));
    assert_eq!(control.get_param(CUTOFF), Some(&bits(440.0)));
    assert_eq!(control.get_param(METER), Some(&bits(0.0)));
    assert_eq!(control.get_param(99), None);
    assert_eq!(control.get_by_path("volume"), Some(&bits(0.5)));
    assert_eq!(control.get_by_path("filter/cutoff"), Some(&bits(440.0)));
    assert_eq!(control.get_by_path("cutoff"), None);
    assert_eq!(control.params().len(), 3);
    assert!(control.state.updates.is_empty());
}

#[test]
fn paths_are_listed_in_order() {
    let (_audio, mut control) = set_up(None);
    assert_eq!(control.set_by_path("meter", bits(3.0)), Ok(()));
    let listed: Vec<(String, Option<u32>)> = control
        .params_by_path()
        .into_iter()
        .map(|(path, value)| (path.clone(), value.copied()))
        .collect();
    assert_eq!(
        listed,
        vec![
            ("filter/cutoff".to_string(), Some(bits(440.0))),
            ("meter".to_string(), Some(bits(3.0))),
            ("volume".to_string(), Some(bits(0.5))),
        ]
    );
}

#[test]
fn path_of_two_parameters_leads_to_one_of_them() {
    let mut ui = ParamsBuilder::new();
    ui.open_vertical_box("outer");
    ui.add_num_entry("same", 1, bits(1.0), bits(0.0), bits(9.0), bits(1.0));
    ui.add_num_entry("same", 2, bits(2.0), bits(0.0), bits(9.0), bits(1.0));
    let (_audio, mut control) =
        DspHandle::from_dsp(Box::new(()), MetaBuilder::new().finish(), ui.finish());
    assert_eq!(control.params_by_path().len(), 1);
    let value = control.get_by_path("same").copied();
    assert!(value == Some(bits(1.0)) || value == Some(bits(2.0)));
    assert_eq!(control.set_by_path("same", bits(5.0)), Ok(()));
    assert_eq!(control.get_by_path("same"), Some(&bits(5.0)));
    let first = control.get_param(1) == Some(&bits(5.0));
    let second = control.get_param(2) == Some(&bits(5.0));
    assert!(first != second);
}

#[test]
fn value_that_was_set_is_read_back() {
    let (_audio, mut control) = set_up(None);
    control.set_param(VOLUME, bits(0.25));
    assert_eq!(control.get_param(VOLUME), Some(&bits(0.25)));
    assert_eq!(control.set_by_path("filter/cutoff", bits(100.0)), Ok(()));
    assert_eq!(control.get_by_path("filter/cutoff"), Some(&bits(100.0)));
    assert_eq!(control.get_param(CUTOFF), Some(&bits(100.0)));
    assert_eq!(control.get_param(METER), Some(&bits(0.0)));
    control.set_param(99, bits(-1.0));
    assert_eq!(control.get_param(99), Some(&bits(-1.0)));
    assert_eq!(control.state.updates.len(), 3);
}

#[test]
fn setting_by_path_leaves_other_paths_alone() {
    let (_audio, mut control) = set_up(None);
    assert_eq!(control.set_by_path("volume", bits(0.9)), Ok(()));
    assert_eq!(control.get_by_path("filter/cutoff"), Some(&bits(440.0)));
    assert_eq!(control.get_by_path("meter"), Some(&bits(0.0)));
    assert_eq!(control.get_by_path("nowhere"), None);
}

#[test]
fn listed_paths_are_those_of_the_parameters() {
    let (_audio, control) = set_up(None);
    let mut declared: Vec<String> = control.params().values().map(|node| node.path()).collect();
    declared.sort();
    let listed: Vec<String> =
        control.params_by_path().into_iter().map(|(path, _)| path.clone()).collect();
    assert_eq!(listed, declared);
}

#[test]
fn two_rounds_deliver_everything() {
    for sent_before in 0..4 {
        let (mut audio, mut control) = set_up(None);
        for i in 0..sent_before {
            control.set_param(VOLUME, 100 + i);
            control.update();
        }
        control.set_param(VOLUME, 7);
        control.set_param(CUTOFF, 8);
        control.set_param(CUTOFF, 9);
        control.update();
        run(&mut audio);
        control.update();
        run(&mut audio);
        assert!(control.state.updates.is_empty());
        assert_eq!(audio.dsp.params[&VOLUME], 7);
        assert_eq!(audio.dsp.params[&CUTOFF], 9);
    }
}

#[test]
fn declared_parameters_keep_having_values() {
    let (mut audio, mut control) = set_up(None);
    audio.dsp.params.remove(&CUTOFF);
    for i in 0..5 {
        control.set_param(1000 + i, i as u32);
        control.update();
        run(&mut audio);
        control.update();
        for path in ["volume", "filter/cutoff", "meter"] {
            assert!(control.get_by_path(path).is_some());
        }
        for idx in [VOLUME, CUTOFF, METER] {
            assert!(control.get_param(idx).is_some());
        }
    }
}

#[test]
fn range_is_not_enforced() {
    let (_audio, mut control) = set_up(None);
    assert_eq!(control.set_by_path("volume", bits(7.0)), Ok(()));
    assert_eq!(control.get_by_path("volume"), Some(&bits(7.0)));
}

#[test]
fn unknown_path_is_refused() {
    let (_audio, mut control) = set_up(None);
    let before = control.state.state.clone();
    assert_eq!(control.set_by_path("nowhere", bits(1.0)), Err("No such path".to_string()));
    assert_eq!(control.state.state, before);
    assert!(control.state.updates.is_empty());
}

#[test]
fn last_value_wins_and_order_of_others_is_free() {
    let (_audio, mut one) = set_up(None);
    one.set_param(VOLUME, 1);
    one.set_param(VOLUME, 2);
    one.set_param(CUTOFF, 3);
    let (_other, mut two) = set_up(None);
    two.set_param(CUTOFF, 3);
    two.set_param(VOLUME, 2);
    assert_eq!(one.state.state, two.state.state);
    assert_eq!(one.state.updates, two.state.updates);
}

#[test]
fn cycle_without_a_state_only_computes() {
    let (mut audio, _control) = set_up(None);
    assert_eq!(run(&mut audio), vec!["read", "write 9fc0", "compute", "write 1f80"]);
    assert_eq!(audio.dsp.status, Some(0x1f80));
    assert_eq!(audio.dsp.seen_while_computing, vec![Some(0x9fc0)]);
}

#[test]
fn cycle_without_a_status_register_writes_none() {
    let (mut audio, mut control) = set_up(None);
    audio.dsp.status = None;
    control.update();
    assert_eq!(run(&mut audio), vec!["set 0", "read", "compute", "get 3"]);
    assert_eq!(audio.dsp.status, None);
}

#[test]
fn value_reaches_the_dsp_and_comes_back() {
    let (mut audio, mut control) = set_up(None);
    control.set_param(VOLUME, bits(0.75));
    control.send();
    assert!(control.state.updates.is_empty());
    assert_eq!(
        run(&mut audio),
        vec!["set 1", "read", "write 9fc0", "compute", "write 1f80", "get 3"]
    );
    assert_eq!(audio.dsp.params[&VOLUME], bits(0.75));
    assert_eq!(control.get_param(METER), Some(&bits(0.0)));
    control.update();
    assert_eq!(control.get_param(VOLUME), Some(&bits(0.75)));
    assert_eq!(control.get_param(METER), Some(&bits(1.0)));
}

#[test]
fn updates_are_kept_until_they_can_be_sent() {
    let (mut audio, mut control) = set_up(None);
    control.set_param(VOLUME, bits(0.1));
    control.update();
    control.set_param(VOLUME, bits(0.2));
    control.update();
    control.set_param(CUTOFF, bits(99.0));
    control.update();
    assert_eq!(control.state.updates.len(), 2);
    run(&mut audio);
    assert_eq!(audio.dsp.params[&VOLUME], bits(0.1));
    assert_eq!(audio.dsp.params[&CUTOFF], bits(440.0));
    control.update();
    assert!(control.state.updates.is_empty());
    run(&mut audio);
    assert_eq!(audio.dsp.params[&VOLUME], bits(0.2));
    assert_eq!(audio.dsp.params[&CUTOFF], bits(99.0));
}

#[test]
fn reply_replaces_values_that_were_set_meanwhile() {
    let (mut audio, mut control) = set_up(None);
    control.set_param(VOLUME, bits(0.1));
    control.update();
    run(&mut audio);
    control.set_param(VOLUME, bits(0.9));
    control.update();
    assert_eq!(control.get_param(VOLUME), Some(&bits(0.1)));
    run(&mut audio);
    assert_eq!(audio.dsp.params[&VOLUME], bits(0.9));
    control.update();
    assert_eq!(control.get_param(VOLUME), Some(&bits(0.9)));
}

#[test]
fn cycle_without_room_ends_without_a_reply() {
    let mut state = State { state: HashMap::new(), updates: HashMap::new() };
    state.insert(1, 5);
    let (cycle, action, reply) =
        advance(Cycle::Restoring(Some(state)), Event::Done, FpUnit::Other, None, false);
    assert!(matches!(cycle, Cycle::Idle));
    assert!(matches!(action, Action::Finish));
    assert!(reply.is_none());
}

#[test]
fn cycle_with_room_ends_with_a_reply() {
    let mut state = State { state: HashMap::new(), updates: HashMap::new() };
    state.insert(1, 5);
    let (cycle, action, reply) =
        advance(Cycle::Computing(Some(state), None), Event::Done, FpUnit::Other, None, true);
    assert!(reply.is_none());
    match action {
        Action::GetParams(list) => assert_eq!(list, vec![1]),
        _ => panic!("the parameters are not read"),
    }
    let mut readings = HashMap::new();
    readings.insert(1, 6);
    let (cycle, action, reply) =
        advance(cycle, Event::Readings(readings), FpUnit::Other, None, false);
    assert!(matches!(cycle, Cycle::Idle));
    assert!(matches!(action, Action::Finish));
    match reply {
        Some(sent) => {
            assert_eq!(sent.state[&1], 6);
            assert_eq!(sent.updates[&1], 5);
        }
        None => panic!("there is no reply"),
    }
}

#[test]
fn parameter_that_the_dsp_does_not_know_keeps_its_value() {
    let (mut audio, mut control) = set_up(None);
    audio.dsp.params.remove(&CUTOFF);
    control.set_param(99, bits(4.0));
    control.update();
    run(&mut audio);
    audio.dsp.params.remove(&99);
    control.update();
    assert_eq!(control.get_param(99), Some(&bits(4.0)));
    assert_eq!(control.get_param(CUTOFF), Some(&bits(440.0)));
}

#[test]
fn exchange_takes_what_came_and_gives_what_is_pending() {
    let mut state = State { state: HashMap::new(), updates: HashMap::new() };
    state.insert(1, 5);
    let mut reply = State { state: HashMap::new(), updates: HashMap::new() };
    reply.insert(1, 4);
    reply.insert(2, 7);
    assert!(state.exchange(Some(reply), false).is_none());
    assert_eq!(state.state[&1], 4);
    assert_eq!(state.state[&2], 7);
    assert_eq!(state.updates.len(), 1);
    let message = state.exchange(None, true);
    match message {
        Some(sent) => {
            assert_eq!(sent.updates[&1], 5);
            assert_eq!(sent.state[&1], 4);
        }
        None => panic!("nothing was handed over"),
    }
    assert!(state.updates.is_empty());
}

#[test]
fn pending_updates_and_readings_are_listed_once() {
    let (audio, _control) = set_up(None);
    let mut state = State { state: HashMap::new(), updates: HashMap::new() };
    state.insert(3, 30);
    state.insert(4, 40);
    state.insert(3, 31);
    let mut writes = audio.update_params_from_state(&state);
    writes.sort();
    assert_eq!(writes, vec![(3, 31), (4, 40)]);
    let mut list = state.indices();
    list.sort();
    assert_eq!(list, vec![3, 4]);
    let mut readings = HashMap::new();
    readings.insert(4, 41);
    readings.insert(5, 50);
    audio.update_state_from_params(&mut state, &readings);
    assert_eq!(state.state.len(), 2);
    assert_eq!(state.state[&3], 31);
    assert_eq!(state.state[&4], 41);
    assert_eq!(state.updates[&4], 40);
}

#[test]
fn flush_bits_depend_on_the_unit() {
    assert_eq!(FpUnit::Arm.flush_mask(), 1 << 24);
    assert_eq!(FpUnit::Sse2.flush_mask(), 0x8040);
    assert_eq!(FpUnit::Sse.flush_mask(), 0x8000);
    assert_eq!(FpUnit::Other.flush_mask(), 0);
}

#[test]
fn values_keep_arriving_over_many_cycles() {
    let (mut audio, mut control) = set_up(None);
    for i in 0..50u32 {
        control.set_param(VOLUME, i);
        control.update();
        run(&mut audio);
        control.update();
        assert_eq!(control.get_param(VOLUME), Some(&i));
        assert_eq!(audio.dsp.params[&VOLUME], i);
        run(&mut audio);
    }
}

#[test]
fn handles_made_together_belong_together() {
    let (mut audio, mut control) = set_up(Some("one"));
    let (other_audio, other_control) = set_up(Some("one"));
    assert!(audio.belongs_to(&control));
    assert!(other_audio.belongs_to(&other_control));
    assert!(!audio.belongs_to(&other_control));
    assert!(!other_audio.belongs_to(&control));

    control.set_param(VOLUME, bits(0.25));
    control.update();
    assert!(audio.belongs_to(&control));
    run(&mut audio);
    control.update();
    assert!(audio.belongs_to(&control));
    assert!(!audio.belongs_to(&other_control));
}

#[test]
fn reply_still_waits_after_a_parameter_is_set() {
    let (mut audio, mut control) = set_up(None);
    control.update();
    run(&mut audio);
    control.set_param(VOLUME, bits(0.75));
    assert_eq!(control.set_by_path("filter/cutoff", bits(880.0)), Ok(()));
    assert_eq!(control.get_param(METER), Some(&bits(0.0)));
    control.update();
    assert_eq!(control.get_param(METER), Some(&bits(1.0)));
}
