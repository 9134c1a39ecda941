//! The widgets that a DSP declares, one per parameter.

use vstd::prelude::*;

use crate::state::{FloatBits, ZERO};

verus! {

/// A declared range, both ends included.
#[derive(Debug, Clone, Copy, PartialEq, Eq, Structural)]
pub struct ValueRange {
    pub start: FloatBits,
    pub end: FloatBits,
}

/// A ranged input controlled by the user.
#[derive(Debug, Clone, Copy, PartialEq, Eq, Structural)]
pub struct RangedInput {
    /// Initial value defined in the DSP.
    pub init: FloatBits,
    /// Available range defined in the DSP. It is declared but not enforced.
    pub range: ValueRange,
    /// Precision of the value. It is declared but not enforced.
    pub step: FloatBits,
}

impl RangedInput {
    /// An input that starts at `init` and ranges from `min` to `max`.
    #[must_use]
    pub fn new(init: FloatBits, min: FloatBits, max: FloatBits, step: FloatBits) -> (input: Self)
        ensures
            input == (RangedInput { init, range: ValueRange { start: min, end: max }, step }),
    {
        RangedInput { init, range: ValueRange { start: min, end: max }, step }
    }
}

/// A ranged output value controlled by the DSP.
#[derive(Debug, Clone, Copy, PartialEq, Eq, Structural)]
pub struct RangedOutput {
    /// Declared range of the widget. It is declared but not enforced.
    pub range: ValueRange,
}

impl RangedOutput {
    /// An output that ranges from `min` to `max`.
    #[must_use]
    pub fn new(min: FloatBits, max: FloatBits) -> (output: Self)
        ensures
            output == (RangedOutput { range: ValueRange { start: min, end: max } }),
    {
        RangedOutput { range: ValueRange { start: min, end: max } }
    }
}

/// General types of widgets declared in the DSP.
#[derive(Debug, Clone, Copy, PartialEq, Eq, Structural)]
pub enum WidgetType {
    /// Only has metadata. There should not be any after building the DSP.
    Unknown,
    /// Temporary on button.
    Button,
    /// Stable on/off button.
    Toggle,
    /// Vertical slider.
    VerticalSlider(RangedInput),
    /// Horizontal slider.
    HorizontalSlider(RangedInput),
    /// Numeric entry.
    NumEntry(RangedInput),
    /// Horizontal bargraph.
    HorizontalBarGraph(RangedOutput),
    /// Vertical bargraph.
    VerticalBargraph(RangedOutput),
}

impl Default for WidgetType {
    fn default() -> (typ: Self)
        ensures
            typ == WidgetType::Unknown,
    {
        WidgetType::Unknown
    }
}

impl WidgetType {
    /// The value a widget of this type starts with.
    pub open spec fn initial(self) -> FloatBits {
        match self {
            WidgetType::NumEntry(input) => input.init,
            WidgetType::HorizontalSlider(input) => input.init,
            WidgetType::VerticalSlider(input) => input.init,
            _ => ZERO,
        }
    }

    /// Retrieves the init value for this widget.
    ///
    /// Buttons and checkboxes are off by default. Passive widgets will need an update from
    /// the DSP before having a value.
    #[must_use]
    pub fn init_value(&self) -> (value: FloatBits)
        ensures
            value == self.initial(),
            *self matches WidgetType::NumEntry(input) ==> value == input.init,
            *self matches WidgetType::HorizontalSlider(input) ==> value == input.init,
            *self matches WidgetType::VerticalSlider(input) ==> value == input.init,
            *self is Unknown || *self is Button || *self is Toggle ==> value == 0,
            *self is HorizontalBarGraph || *self is VerticalBargraph ==> value == 0,
    {
        match self {
            WidgetType::NumEntry(input)
            | WidgetType::HorizontalSlider(input)
            | WidgetType::VerticalSlider(input) => input.init,
            _ => ZERO,
        }
    }
}

/// A widget with its place in the user interface.
#[derive(Debug, Clone)]
pub struct Node {
    pub(crate) label: String,
    pub(crate) prefix: String,
    pub(crate) typ: WidgetType,
    pub(crate) metadata: Vec<[String; 2]>,
}

/// What a [`Node`] holds.
#[verifier::ext_equal]
pub struct NodeView {
    pub label: Seq<char>,
    pub prefix: Seq<char>,
    pub typ: WidgetType,
    /// Keys and values, in the order of their declaration.
    pub metadata: Seq<(Seq<char>, Seq<char>)>,
}

impl NodeView {
    /// The label behind the prefix, or alone where there is no prefix.
    pub open spec fn path(self) -> Seq<char> {
        if self.prefix.len() == 0 {
            self.label
        } else {
            self.prefix + "/"@ + self.label
        }
    }
}

/// What a list of metadata entries holds.
pub open spec fn pairs(metadata: Seq<[String; 2]>) -> Seq<(Seq<char>, Seq<char>)> {
    metadata.map_values(|pair: [String; 2]| (pair@[0]@, pair@[1]@))
}

impl View for Node {
    type V = NodeView;

    open(crate) spec fn view(&self) -> NodeView {
        NodeView {
            label: self.label@,
            prefix: self.prefix@,
            typ: self.typ,
            metadata: pairs(self.metadata@),
        }
    }
}

/// A node holds what its fields hold.
proof fn node_holds_its_fields(node: Node)
    ensures
        node@.label == node.label@,
        node@.prefix == node.prefix@,
        node@.typ == node.typ,
        node@.metadata == pairs(node.metadata@),
{
}

impl Default for Node {
    fn default() -> (node: Self)
        ensures
            node@ == (NodeView {
                label: Seq::empty(),
                prefix: Seq::empty(),
                typ: WidgetType::Unknown,
                metadata: Seq::empty(),
            }),
    {
        let node = Node {
            label: String::new(),
            prefix: String::new(),
            typ: WidgetType::default(),
            metadata: Vec::new(),
        };
        assert(node@.metadata == Seq::<(Seq<char>, Seq<char>)>::empty());
        node
    }
}

impl Node {
    /// The path by which the parameter is found.
    #[must_use]
    pub fn path(&self) -> (path: String)
        ensures
            path@ == self@.path(),
            self@.prefix.len() == 0 ==> path@ == self@.label,
            self@.prefix.len() > 0 ==> path@ == self@.prefix + seq!['/'] + self@.label,
    {
        proof {
            reveal_strlit("/");
            assert("/"@ =~= seq!['/']);
        }
        let mut path = self.prefix.clone();
        if !path.as_str().is_empty() {
            path.append("/");
        }
        path.append(self.label.as_str());
        path
    }

    /// The type of the widget.
    #[must_use]
    pub fn widget_type(&self) -> (typ: &WidgetType)
        ensures
            *typ == self@.typ,
    {
        &self.typ
    }
}

} // verus!
