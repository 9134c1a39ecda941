//! What names, paths and initial values come from.

use vstd::prelude::*;
use vstd::utf8;

use crate::builder;
use crate::handle;
use crate::handle::SetupView;
use crate::state::{FloatBits, StateView};
use crate::string_map;
use crate::text;
use crate::widget;
use crate::widget::{Node, NodeView, WidgetType};

verus! {

/// A node without a prefix is found by its label alone, any other by its prefix and its
/// label with one slash between them.
pub proof fn path_is_prefix_and_label(node: NodeView)
    ensures
        node.prefix.len() == 0 ==> node.path() == node.label,
        node.prefix.len() > 0 ==> node.path() == node.prefix + seq!['/'] + node.label,
{
    reveal_strlit("/");
    assert("/"@ =~= seq!['/']);
}

/// The path depends on the place and the label only, whatever the type and the metadata.
pub proof fn path_depends_on_place_and_label(one: NodeView, other: NodeView)
    requires
        one.prefix == other.prefix,
        one.label == other.label,
    ensures
        one.path() == other.path(),
{
}

/// Below the same prefix, different labels make different paths.
pub proof fn labels_tell_paths_apart(one: NodeView, other: NodeView)
    requires
        one.prefix == other.prefix,
        one.path() == other.path(),
    ensures
        one.label == other.label,
{
    path_is_prefix_and_label(one);
    path_is_prefix_and_label(other);
    let start = one.path().len() - one.label.len();
    assert(one.path().skip(start) =~= one.label);
    assert(other.path().skip(start) =~= other.label);
}

/// No parts join to nothing, and one part to itself.
pub proof fn joined_one(part: Seq<char>)
    ensures
        text::joined(Seq::empty()) == Seq::<char>::empty(),
        text::joined(seq![part]) == part,
{
}

/// Joined parts stand in order with one slash between each two: two lists of parts join to
/// what each joins to, with a slash between them.
pub proof fn joined_two(first: Seq<Seq<char>>, second: Seq<Seq<char>>)
    requires
        first.len() > 0,
        second.len() > 0,
    ensures
        text::joined(first + second) == text::joined(first) + seq!['/'] + text::joined(second),
    decreases second.len(),
{
    reveal_strlit("/");
    assert("/"@ =~= seq!['/']);
    assert((first + second).drop_last() =~= first + second.drop_last());
    assert((first + second).last() == second.last());
    if second.len() == 1 {
        assert(first + second.drop_last() =~= first);
    } else {
        joined_two(first, second.drop_last());
        assert(text::joined(first + second) =~= text::joined(first) + seq!['/'] + text::joined(
            second,
        ));
    }
}

/// A list of strings is looked at string by string.
pub proof fn views_are_those_of_the_strings(parts: Seq<String>)
    ensures
        text::views(parts).len() == parts.len(),
        forall|i: int| 0 <= i < parts.len() ==> #[trigger] text::views(parts)[i] == parts[i]@,
{
}

/// A table of nodes is looked at node by node, and a table of strings string by string.
pub proof fn tables_are_those_of_their_entries(
    nodes: Map<i32, Node>,
    idx: i32,
    strings: Map<Seq<char>, String>,
    key: Seq<char>,
)
    ensures
        builder::node_views(nodes).contains_key(idx) == nodes.contains_key(idx),
        nodes.contains_key(idx) ==> builder::node_views(nodes)[idx] == nodes[idx]@,
        builder::string_views(strings).contains_key(key) == strings.contains_key(key),
        strings.contains_key(key) ==> builder::string_views(strings)[key] == strings[key]@,
{
}

/// Sliders and numeric entries start at the initial value that was declared for them,
/// whatever their range and step; everything else starts at zero.
pub proof fn widgets_start_as_declared(typ: WidgetType)
    ensures
        match typ {
            WidgetType::VerticalSlider(input) => typ.initial() == input.init,
            WidgetType::HorizontalSlider(input) => typ.initial() == input.init,
            WidgetType::NumEntry(input) => typ.initial() == input.init,
            WidgetType::Unknown => typ.initial() == 0,
            WidgetType::Button => typ.initial() == 0,
            WidgetType::Toggle => typ.initial() == 0,
            WidgetType::HorizontalBarGraph(_) => typ.initial() == 0,
            WidgetType::VerticalBargraph(_) => typ.initial() == 0,
        },
{
}

/// At the start the known values are those of the declared parameters: the declared initial
/// value of each slider and numeric entry, and zero for everything else.
pub proof fn values_start_as_declared(params: Map<i32, NodeView>, idx: i32)
    ensures
        ({
            let values = handle::initial_values(params);
            &&& values.contains_key(idx) == params.contains_key(idx)
            &&& params.contains_key(idx) ==> match params[idx].typ {
                WidgetType::VerticalSlider(input) => values[idx] == input.init,
                WidgetType::HorizontalSlider(input) => values[idx] == input.init,
                WidgetType::NumEntry(input) => values[idx] == input.init,
                _ => values[idx] == 0,
            }
        }),
{
}

/// The name is what the metadata holds for the key "name", whatever else it holds; without
/// that key it is the default.
pub proof fn name_is_what_was_declared(meta: Map<Seq<char>, Seq<char>>, name: Seq<char>)
    ensures
        meta.contains_pair("name"@, name) ==> handle::declared_name(meta) == name,
        !meta.contains_key("name"@) ==> handle::declared_name(meta) == "rust_faust"@,
{
}

/// To declare any other key leaves the name as it is, and to declare the name sets it.
pub proof fn name_depends_on_its_key_alone(
    meta: Map<Seq<char>, Seq<char>>,
    key: Seq<char>,
    value: Seq<char>,
)
    ensures
        key != "name"@ ==> handle::declared_name(meta.insert(key, value))
            == handle::declared_name(meta),
        key == "name"@ ==> handle::declared_name(meta.insert(key, value)) == value,
        key != "name"@ ==> handle::declared_name(meta.remove(key)) == handle::declared_name(meta),
{
}

/// One byte string comes before another if it is a proper beginning of it, or if it is
/// smaller in the first place where they differ.
pub proof fn order_of_bytes(a: Seq<u8>, b: Seq<u8>)
    ensures
        text::bytes_before(a, b) <==> exists|k: int|
            {
                &&& 0 <= k <= a.len()
                &&& k < b.len()
                &&& #[trigger] a.take(k) == b.take(k)
                &&& k < a.len() ==> a[k] < b[k]
            },
    decreases a.len(),
{
    if a.len() == 0 && b.len() > 0 {
        assert(a.take(0) =~= b.take(0));
    } else if b.len() > 0 && a[0] != b[0] {
        if a[0] < b[0] {
            assert(a.take(0) =~= b.take(0));
        }
        assert forall|k: int| 0 < k <= a.len() && k < b.len() implies #[trigger] a.take(k)
            != b.take(k) by {
            assert(a.take(k)[0] != b.take(k)[0]);
        }
    } else if b.len() > 0 {
        let x = a.drop_first();
        let y = b.drop_first();
        order_of_bytes(x, y);
        assert forall|k: int| 0 < k <= a.len() && k < b.len() implies (#[trigger] a.take(k)
            == b.take(k)) == (x.take(k - 1) == y.take(k - 1)) by {
            if a.take(k) == b.take(k) {
                assert(x.take(k - 1) =~= a.take(k).drop_first());
                assert(y.take(k - 1) =~= b.take(k).drop_first());
            }
            if x.take(k - 1) == y.take(k - 1) {
                assert(a.take(k) =~= seq![a[0]] + x.take(k - 1));
                assert(b.take(k) =~= seq![b[0]] + y.take(k - 1));
            }
        }
        if text::bytes_before(x, y) {
            let k = choose|k: int|
                {
                    &&& 0 <= k <= x.len()
                    &&& k < y.len()
                    &&& #[trigger] x.take(k) == y.take(k)
                    &&& k < x.len() ==> x[k] < y[k]
                };
            assert(x.take(k + 1 - 1) == y.take(k + 1 - 1));
            assert(a.take(k + 1) == b.take(k + 1));
        }
    }
}

/// Strings are ordered by the bytes of their UTF-8 encoding.
pub proof fn order_of_strings(one: Seq<char>, other: Seq<char>)
    ensures
        ({
            let a = utf8::encode_utf8(one);
            let b = utf8::encode_utf8(other);
            text::before(one, other) <==> exists|k: int|
                {
                    &&& 0 <= k <= a.len()
                    &&& k < b.len()
                    &&& #[trigger] a.take(k) == b.take(k)
                    &&& k < a.len() ==> a[k] < b[k]
                }
        }),
{
    order_of_bytes(utf8::encode_utf8(one), utf8::encode_utf8(other));
}

/// A list of entries in ascending order of its keys holds exactly its entries.
pub proof fn map_holds_its_entries<V>(
    entries: Seq<(String, V)>,
    key: Seq<char>,
    i: int,
    j: int,
)
    requires
        string_map::ascending(entries),
    ensures
        0 <= i < j < entries.len() ==> text::before(entries[i].0@, entries[j].0@),
        0 <= i < entries.len() ==> string_map::contents(entries).contains_pair(
            entries[i].0@,
            entries[i].1,
        ),
        string_map::contents(entries).contains_key(key) ==> exists|k: int|
            0 <= k < entries.len() && (#[trigger] entries[k]).0@ == key,
{
    if 0 <= i < entries.len() {
        string_map::contents_at(entries, i);
    }
    if string_map::contents(entries).contains_key(key) {
        let k = choose|k: int| string_map::is_at(entries, key, k);
        assert(entries[k].0@ == key);
    }
}

/// The list of paths holds each path that leads to a parameter once, in ascending order, with
/// the value that the parameter is known at, or none where it is not known.
pub proof fn listed_paths_have_the_known_values(
    list: Seq<(&String, Option<&FloatBits>)>,
    setup: SetupView,
    state: StateView,
    path: Seq<char>,
    j: int,
    k: int,
)
    requires
        handle::lists_values(list, setup, state),
    ensures
        0 <= j < list.len() ==> {
            let idx = setup.paths[list[j].0@];
            &&& setup.paths.contains_key(list[j].0@)
            &&& match list[j].1 {
                Some(value) => state.state.contains_pair(idx, *value),
                None => !state.state.contains_key(idx),
            }
        },
        0 <= j < k < list.len() ==> text::before(list[j].0@, list[k].0@),
        setup.paths.contains_key(path) ==> exists|i: int|
            0 <= i < list.len() && (#[trigger] list[i]).0@ == path,
{
}

/// Every path that leads anywhere leads to a parameter that has it, and every parameter has
/// a path that leads somewhere.
pub proof fn paths_lead_to_their_parameters(
    paths: Map<Seq<char>, i32>,
    params: Map<i32, NodeView>,
    path: Seq<char>,
    idx: i32,
)
    requires
        handle::leads(paths, params),
    ensures
        paths.contains_key(path) ==> params.contains_key(paths[path])
            && params[paths[path]].path() == path,
        params.contains_key(idx) ==> paths.contains_key(params[idx].path()),
{
}

/// Metadata entries are pairs of a key and a value, in the order in which they are listed.
pub proof fn metadata_is_listed_in_order(entries: Vec<[String; 2]>, none: Option<Vec<[String; 2]>>)
    requires
        none is None,
    ensures
        widget::pairs(entries@).len() == entries@.len(),
        forall|i: int|
            0 <= i < entries@.len() ==> #[trigger] widget::pairs(entries@)[i] == (
                entries@[i]@[0]@,
                entries@[i]@[1]@,
            ),
        builder::optional_pairs(Some(entries)) == widget::pairs(entries@),
        builder::optional_pairs(none).len() == 0,
{
}

} // verus!
