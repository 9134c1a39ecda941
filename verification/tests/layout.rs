use faust_state::builder::{MetaBuilder, ParamsBuilder};
use faust_state::widget::{Node, RangedInput, RangedOutput, ValueRange, WidgetType};

fn bits(value: f32) -> u32 {
    value.to_bits()
}

#[test]
fn outer_group_is_not_part_of_a_path() {
    let mut builder = ParamsBuilder::new();
    builder.open_vertical_box("synth");
    builder.add_button("gate", 0);
    builder.open_horizontal_box("osc");
    builder.open_tab_box("first");
    builder.add_check_button("on", 1);
    builder.close_box();
    builder.add_check_button("sync", 2);
    builder.close_box();
    builder.add_button("panic", 3);
    builder.close_box();
    let params = builder.finish();
    assert_eq!(params.len(), 4);
    assert_eq!(params[&0].path(), "gate");
    assert_eq!(params[&1].path(), "osc/first/on");
    assert_eq!(params[&2].path(), "osc/sync");
    assert_eq!(params[&3].path(), "panic");
}

#[test]
fn second_outer_group_is_part_of_a_path() {
    let mut builder = ParamsBuilder::new();
    builder.open_group("one");
    builder.close_group();
    builder.open_group("two");
    builder.add_button("b", 7);
    let params = builder.finish();
    assert_eq!(params[&7].path(), "two/b");
}

#[test]
fn closing_more_groups_than_were_opened_changes_nothing() {
    let mut builder = ParamsBuilder::new();
    builder.close_box();
    builder.open_vertical_box("outer");
    builder.close_box();
    builder.close_box();
    builder.add_button("b", 0);
    let params = builder.finish();
    assert_eq!(params[&0].path(), "b");
}

#[test]
fn single_group_without_a_name_adds_nothing() {
    let mut builder = ParamsBuilder::new();
    builder.open_group("outer");
    builder.open_group("");
    builder.add_button("b", 0);
    builder.open_group("");
    builder.add_button("c", 1);
    let params = builder.finish();
    assert_eq!(params[&0].path(), "b");
    assert_eq!(params[&1].path(), "//c");
}

#[test]
fn widgets_have_their_types_and_initial_values() {
    let mut builder = ParamsBuilder::new();
    builder.open_vertical_box("all");
    builder.add_button("a", 0);
    builder.add_check_button("b", 1);
    builder.add_vertical_slider("c", 2, bits(0.5), bits(0.0), bits(1.0), bits(0.01));
    builder.add_horizontal_slider("d", 3, bits(-3.0), bits(-60.0), bits(6.0), bits(0.1));
    builder.add_num_entry("e", 4, bits(440.0), bits(20.0), bits(20000.0), bits(1.0));
    builder.add_horizontal_bargraph("f", 5, bits(-1.0), bits(1.0));
    builder.add_vertical_bargraph("g", 6, bits(0.0), bits(2.0));
    let params = builder.finish();
    let input = RangedInput::new(bits(0.5), bits(0.0), bits(1.0), bits(0.01));
    assert_eq!(input.init, bits(0.5));
    assert_eq!(input.range, ValueRange { start: bits(0.0), end: bits(1.0) });
    assert_eq!(input.step, bits(0.01));
    let output = RangedOutput::new(bits(-1.0), bits(1.0));
    assert_eq!(output.range, ValueRange { start: bits(-1.0), end: bits(1.0) });
    assert_eq!(*params[&0].widget_type(), WidgetType::Button);
    assert_eq!(*params[&1].widget_type(), WidgetType::Toggle);
    assert_eq!(*params[&2].widget_type(), WidgetType::VerticalSlider(input));
    assert!(matches!(params[&3].widget_type(), WidgetType::HorizontalSlider(_)));
    assert!(matches!(params[&4].widget_type(), WidgetType::NumEntry(_)));
    assert_eq!(*params[&5].widget_type(), WidgetType::HorizontalBarGraph(output));
    assert!(matches!(params[&6].widget_type(), WidgetType::VerticalBargraph(_)));
    let initial = [0.0, 0.0, 0.5, -3.0, 440.0, 0.0, 0.0];
    for idx in 0..7i32 {
        let value = params[&idx].widget_type().init_value();
        assert_eq!(f32::from_bits(value), initial[idx as usize]);
    }
}

#[test]
fn metadata_alone_makes_an_unknown_parameter() {
    let mut builder = ParamsBuilder::new();
    builder.open_vertical_box("outer");
    builder.open_vertical_box("group");
    builder.declare(Some(5), "unit", "Hz");
    let params = builder.finish();
    assert_eq!(*params[&5].widget_type(), WidgetType::Unknown);
    assert_eq!(params[&5].path(), "group/Unknown");
    assert_eq!(params[&5].widget_type().init_value(), bits(0.0));
}

#[test]
fn metadata_of_no_parameter_is_left_out() {
    let mut builder = ParamsBuilder::new();
    builder.declare(None, "unit", "Hz");
    assert!(builder.finish().is_empty());
}

#[test]
fn metadata_can_come_before_or_after_the_widget() {
    let mut first = ParamsBuilder::new();
    first.open_vertical_box("outer");
    first.declare(Some(1), "style", "knob");
    first.add_button("b", 1);
    first.declare(Some(1), "unit", "dB");
    let mut second = ParamsBuilder::new();
    second.open_vertical_box("outer");
    second.add_button("b", 1);
    second.declare(Some(1), "style", "knob");
    second.declare(Some(1), "unit", "dB");
    let a = format!("{:?}", first.finish()[&1]);
    let b = format!("{:?}", second.finish()[&1]);
    assert_eq!(a, b);
    assert!(a.contains("knob"));
    assert!(a.contains("dB"));
    assert!(a.contains("Button"));
}

#[test]
fn second_widget_keeps_the_place_of_the_first() {
    let mut builder = ParamsBuilder::new();
    builder.open_group("outer");
    builder.open_group("here");
    builder.add_button("old", 1);
    builder.close_group();
    builder.open_group("there");
    builder.add_or_update_widget(
        "new",
        1,
        WidgetType::Toggle,
        Some(vec![["k".to_string(), "v".to_string()]]),
    );
    let params = builder.finish();
    assert_eq!(params[&1].path(), "here/new");
    assert_eq!(*params[&1].widget_type(), WidgetType::Toggle);
    assert!(format!("{:?}", params[&1]).contains("\"k\", \"v\""));
}

#[test]
fn label_is_that_of_the_last_widget_and_place_that_of_the_first_mention() {
    let mut builder = ParamsBuilder::new();
    builder.open_group("outer");
    builder.open_group("meta");
    builder.declare(Some(4), "k", "v");
    builder.close_group();
    builder.add_button("one", 4);
    builder.open_group("late");
    builder.add_check_button("two", 4);
    builder.declare(Some(4), "k", "w");
    let params = builder.finish();
    assert_eq!(params[&4].path(), "meta/two");
    assert_eq!(*params[&4].widget_type(), WidgetType::Toggle);
}

#[test]
fn default_node_is_unknown_and_nameless() {
    let node = Node::default();
    assert_eq!(node.path(), "");
    assert_eq!(*node.widget_type(), WidgetType::default());
    assert_eq!(WidgetType::default(), WidgetType::Unknown);
}

#[test]
fn later_metadata_takes_the_place_of_earlier() {
    let mut builder = MetaBuilder::new();
    builder.declare("name", "a");
    builder.declare("author", "x");
    builder.declare("name", "b");
    let meta = builder.finish();
    assert_eq!(meta.entries().len(), 2);
    assert_eq!(meta.get("name"), Some(&"b".to_string()));
    assert_eq!(meta.get("author"), Some(&"x".to_string()));
    assert_eq!(meta.get("license"), None);
}
