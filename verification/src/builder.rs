//! Collects what a DSP declares about itself: its parameters and its metadata.

use std::collections::hash_map::Entry;
use std::collections::HashMap;

use vstd::prelude::*;

use crate::state::FloatBits;
use crate::string_map::StringMap;
use crate::text;
use crate::widget;
use crate::widget::{Node, NodeView, RangedInput, RangedOutput, ValueRange, WidgetType};

verus! {

/// What the nodes of a parameter table hold.
pub open spec fn node_views(nodes: Map<i32, Node>) -> Map<i32, NodeView> {
    nodes.map_values(|node: Node| node@)
}

/// Collects the parameters while a DSP lays out its user interface.
#[derive(Debug)]
pub struct ParamsBuilder {
    inner: HashMap<i32, Node>,
    prefix: Vec<String>,
    first_group: bool,
}

/// What a [`ParamsBuilder`] holds.
#[verifier::ext_equal]
pub struct ParamsView {
    /// The parameters declared so far, by index.
    pub inner: Map<i32, NodeView>,
    /// The labels of the open groups, outermost first, without the first group of all.
    pub prefix: Seq<Seq<char>>,
    /// No group was opened so far.
    pub first_group: bool,
}

impl View for ParamsBuilder {
    type V = ParamsView;

    closed spec fn view(&self) -> ParamsView {
        ParamsView {
            inner: node_views(self.inner@),
            prefix: text::views(self.prefix@),
            first_group: self.first_group,
        }
    }
}

/// A builder holds the nodes that it has and the labels of its groups.
proof fn builder_holds_its_fields(builder: ParamsBuilder, idx: i32)
    ensures
        builder@.inner.contains_key(idx) == builder.inner@.contains_key(idx),
        builder.inner@.contains_key(idx) ==> builder@.inner[idx] == builder.inner@[idx]@,
        builder@.prefix == text::views(builder.prefix@),
        builder@.first_group == builder.first_group,
{
}

impl ParamsView {
    /// Nothing declared and no group opened.
    pub open spec fn blank() -> ParamsView {
        ParamsView { inner: Map::empty(), prefix: Seq::empty(), first_group: true }
    }

    /// After a group was opened. The first group of all adds nothing to the prefix.
    pub open spec fn opened(self, label: Seq<char>) -> ParamsView {
        if self.first_group {
            ParamsView { first_group: false, ..self }
        } else {
            ParamsView { prefix: self.prefix.push(label), ..self }
        }
    }

    /// After a group was closed.
    pub open spec fn closed_one(self) -> ParamsView {
        if self.prefix.len() == 0 {
            self
        } else {
            ParamsView { prefix: self.prefix.drop_last(), ..self }
        }
    }

    /// The node of `idx` after a widget was added there: a new one below the open groups,
    /// or the one that is there with another label and type and with more metadata.
    pub open spec fn added_node(
        self,
        label: Seq<char>,
        idx: i32,
        typ: WidgetType,
        metadata: Seq<(Seq<char>, Seq<char>)>,
    ) -> NodeView {
        if self.inner.contains_key(idx) {
            let node = self.inner[idx];
            NodeView { label, typ, metadata: node.metadata + metadata, ..node }
        } else {
            NodeView { label, prefix: text::joined(self.prefix), typ, metadata }
        }
    }

    /// After a widget was added.
    pub open spec fn added(
        self,
        label: Seq<char>,
        idx: i32,
        typ: WidgetType,
        metadata: Seq<(Seq<char>, Seq<char>)>,
    ) -> ParamsView {
        ParamsView {
            inner: self.inner.insert(idx, self.added_node(label, idx, typ, metadata)),
            ..self
        }
    }

    /// After a widget without metadata of its own was added.
    pub open spec fn with_widget(
        self,
        label: Seq<char>,
        idx: i32,
        typ: WidgetType,
    ) -> ParamsView {
        self.added(label, idx, typ, Seq::empty())
    }

    /// After metadata was declared. What belongs to no parameter is left out, and a
    /// parameter that has no widget yet gets a node of unknown type.
    pub open spec fn declared(
        self,
        param: Option<i32>,
        key: Seq<char>,
        value: Seq<char>,
    ) -> ParamsView {
        match param {
            None => self,
            Some(idx) => {
                if self.inner.contains_key(idx) {
                    let node = self.inner[idx];
                    let changed = NodeView { metadata: node.metadata.push((key, value)), ..node };
                    ParamsView { inner: self.inner.insert(idx, changed), ..self }
                } else {
                    self.added("Unknown"@, idx, WidgetType::Unknown, seq![(key, value)])
                }
            },
        }
    }
}

/// What an optional list of metadata entries holds.
pub open spec fn optional_pairs(metadata: Option<Vec<[String; 2]>>) -> Seq<(Seq<char>, Seq<char>)> {
    match metadata {
        Some(entries) => widget::pairs(entries@),
        None => Seq::empty(),
    }
}

impl ParamsBuilder {
    /// A builder before anything was declared.
    #[must_use]
    pub fn new() -> (builder: Self)
        ensures
            builder@ == ParamsView::blank(),
    {
        let builder = ParamsBuilder {
            inner: HashMap::new(),
            prefix: Vec::new(),
            first_group: true,
        };
        assert(builder@ == ParamsView::blank());
        builder
    }

    /// The parameters that were declared.
    #[must_use]
    pub fn finish(self) -> (params: HashMap<i32, Node>)
        ensures
            node_views(params@) == self@.inner,
    {
        self.inner
    }

    /// Opens a group of widgets.
    pub fn open_group(&mut self, label: &str)
        ensures
            final(self)@ == old(self)@.opened(label@),
    {
        if self.first_group {
            self.first_group = false;
        } else {
            self.prefix.push(label.to_string());
            assert(self@.prefix == old(self)@.prefix.push(label@));
        }
    }

    /// Closes the group that was opened last.
    pub fn close_group(&mut self)
        ensures
            final(self)@ == old(self)@.closed_one(),
    {
        let _ = self.prefix.pop();
        assert(self@.prefix == old(self)@.closed_one().prefix);
    }

    /// Adds the widget of a parameter, or changes the one that is there.
    pub fn add_or_update_widget(
        &mut self,
        label: &str,
        idx: i32,
        typ: WidgetType,
        metadata: Option<Vec<[String; 2]>>,
    )
        ensures
            final(self)@ == old(self)@.added(label@, idx, typ, optional_pairs(metadata)),
    {
        let ghost before = self@;
        let ghost extra = optional_pairs(metadata);
        let ghost node_view = before.added_node(label@, idx, typ, extra);
        let prefix = text::join(&self.prefix);
        match self.inner.entry(idx) {
            Entry::Vacant(entry) => {
                let node = Node {
                    label: label.to_string(),
                    prefix,
                    typ,
                    metadata: match metadata {
                        Some(entries) => entries,
                        None => Vec::new(),
                    },
                };
                assert(node@.metadata == extra);
                assert(node@ == node_view);
                let _ = entry.insert(node);
            },
            Entry::Occupied(entry) => {
                let node = entry.into_mut();
                node.label = label.to_string();
                node.typ = typ;
                if let Some(mut entries) = metadata {
                    node.metadata.append(&mut entries);
                }
                assert(node@.metadata == before.inner[idx].metadata + extra);
                assert(node@ == node_view);
            },
        }
        assert(self@.inner == before.inner.insert(idx, node_view));
    }

    /// Opens a group laid out as tabs.
    pub fn open_tab_box(&mut self, label: &str)
        ensures
            final(self)@ == old(self)@.opened(label@),
    {
        self.open_group(label);
    }

    /// Opens a group laid out from left to right.
    pub fn open_horizontal_box(&mut self, label: &str)
        ensures
            final(self)@ == old(self)@.opened(label@),
    {
        self.open_group(label);
    }

    /// Opens a group laid out from top to bottom.
    pub fn open_vertical_box(&mut self, label: &str)
        ensures
            final(self)@ == old(self)@.opened(label@),
    {
        self.open_group(label);
    }

    /// Closes the group that was opened last.
    pub fn close_box(&mut self)
        ensures
            final(self)@ == old(self)@.closed_one(),
    {
        self.close_group();
    }

    /// Adds a button.
    pub fn add_button(&mut self, label: &str, param: i32)
        ensures
            final(self)@ == old(self)@.with_widget(label@, param, WidgetType::Button),
    {
        self.add_or_update_widget(label, param, WidgetType::Button, None);
    }

    /// Adds an on/off button.
    pub fn add_check_button(&mut self, label: &str, param: i32)
        ensures
            final(self)@ == old(self)@.with_widget(label@, param, WidgetType::Toggle),
    {
        self.add_or_update_widget(label, param, WidgetType::Toggle, None);
    }

    /// Adds a vertical slider.
    pub fn add_vertical_slider(
        &mut self,
        label: &str,
        param: i32,
        init: FloatBits,
        min: FloatBits,
        max: FloatBits,
        step: FloatBits,
    )
        ensures
            final(self)@ == old(self)@.with_widget(
                label@,
                param,
                WidgetType::VerticalSlider(
                    (RangedInput { init, range: ValueRange { start: min, end: max }, step }),
                ),
            ),
    {
        let typ = WidgetType::VerticalSlider(RangedInput::new(init, min, max, step));
        self.add_or_update_widget(label, param, typ, None);
    }

    /// Adds a horizontal slider.
    pub fn add_horizontal_slider(
        &mut self,
        label: &str,
        param: i32,
        init: FloatBits,
        min: FloatBits,
        max: FloatBits,
        step: FloatBits,
    )
        ensures
            final(self)@ == old(self)@.with_widget(
                label@,
                param,
                WidgetType::HorizontalSlider(
                    (RangedInput { init, range: ValueRange { start: min, end: max }, step }),
                ),
            ),
    {
        let typ = WidgetType::HorizontalSlider(RangedInput::new(init, min, max, step));
        self.add_or_update_widget(label, param, typ, None);
    }

    /// Adds a numeric entry.
    pub fn add_num_entry(
        &mut self,
        label: &str,
        param: i32,
        init: FloatBits,
        min: FloatBits,
        max: FloatBits,
        step: FloatBits,
    )
        ensures
            final(self)@ == old(self)@.with_widget(
                label@,
                param,
                WidgetType::NumEntry(
                    (RangedInput { init, range: ValueRange { start: min, end: max }, step }),
                ),
            ),
    {
        let typ = WidgetType::NumEntry(RangedInput::new(init, min, max, step));
        self.add_or_update_widget(label, param, typ, None);
    }

    /// Adds a horizontal bargraph.
    pub fn add_horizontal_bargraph(
        &mut self,
        label: &str,
        param: i32,
        min: FloatBits,
        max: FloatBits,
    )
        ensures
            final(self)@ == old(self)@.with_widget(
                label@,
                param,
                WidgetType::HorizontalBarGraph(
                    (RangedOutput { range: ValueRange { start: min, end: max } }),
                ),
            ),
    {
        let typ = WidgetType::HorizontalBarGraph(RangedOutput::new(min, max));
        self.add_or_update_widget(label, param, typ, None);
    }

    /// Adds a vertical bargraph.
    pub fn add_vertical_bargraph(
        &mut self,
        label: &str,
        param: i32,
        min: FloatBits,
        max: FloatBits,
    )
        ensures
            final(self)@ == old(self)@.with_widget(
                label@,
                param,
                WidgetType::VerticalBargraph(
                    (RangedOutput { range: ValueRange { start: min, end: max } }),
                ),
            ),
    {
        let typ = WidgetType::VerticalBargraph(RangedOutput::new(min, max));
        self.add_or_update_widget(label, param, typ, None);
    }

    /// Declares metadata, of one parameter or of the interface as a whole.
    pub fn declare(&mut self, param: Option<i32>, key: &str, value: &str)
        ensures
            final(self)@ == old(self)@.declared(param, key@, value@),
    {
        let ghost before = self@;
        if let Some(idx) = param {
            let pair: [String; 2] = [key.to_string(), value.to_string()];
            let ghost added = (key@, value@);
            if !self.inner.contains_key(&idx) {
                let entries = vec![pair];
                assert(widget::pairs(entries@) == seq![added]);
                self.add_or_update_widget("Unknown", idx, WidgetType::default(), Some(entries));
            } else if let Entry::Occupied(entry) = self.inner.entry(idx) {
                let node = entry.into_mut();
                node.metadata.push(pair);
                assert(node@.metadata == before.inner[idx].metadata.push(added));
            }
            assert(self@.inner == before.declared(param, key@, value@).inner);
        }
    }
}

/// Collects the metadata that a DSP declares about itself.
#[derive(Debug)]
pub struct MetaBuilder {
    inner: StringMap<String>,
}

/// What the values of a map of strings hold.
pub open spec fn string_views(map: Map<Seq<char>, String>) -> Map<Seq<char>, Seq<char>> {
    map.map_values(|value: String| value@)
}

impl View for MetaBuilder {
    type V = Map<Seq<char>, Seq<char>>;

    closed spec fn view(&self) -> Map<Seq<char>, Seq<char>> {
        string_views(self.inner@)
    }
}

impl MetaBuilder {
    /// A builder before anything was declared.
    #[must_use]
    pub fn new() -> (builder: Self)
        ensures
            builder@ == Map::<Seq<char>, Seq<char>>::empty(),
    {
        let builder = MetaBuilder { inner: StringMap::new() };
        assert(builder@ == Map::<Seq<char>, Seq<char>>::empty());
        builder
    }

    /// Declares a piece of metadata; a later value of the same key takes its place.
    pub fn declare(&mut self, key: &str, value: &str)
        ensures
            final(self)@ == old(self)@.insert(key@, value@),
    {
        self.inner.insert(key.to_string(), value.to_string());
        assert(self@ == old(self)@.insert(key@, value@));
    }

    /// The metadata that was declared.
    #[must_use]
    pub fn finish(self) -> (meta: StringMap<String>)
        ensures
            string_views(meta@) == self@,
    {
        self.inner
    }
}

} // verus!
