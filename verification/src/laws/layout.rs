//! What holds of the parameters that a DSP declares while it lays out its user interface.

use vstd::prelude::*;

use crate::builder::ParamsView;
use crate::handle;
use crate::text;
use crate::widget::WidgetType;

verus! {

/// One declaration of a DSP.
pub enum Declaration {
    /// A group of widgets begins.
    Open(Seq<char>),
    /// The last group that began ends.
    Close,
    /// A widget with its label, the index of its parameter and its type.
    Widget(Seq<char>, i32, WidgetType),
    /// Metadata, of a parameter or of none.
    Metadata(Option<i32>, Seq<char>, Seq<char>),
}

/// What a builder holds after the declarations.
pub open spec fn laid_out(view: ParamsView, declarations: Seq<Declaration>) -> ParamsView
    decreases declarations.len(),
{
    if declarations.len() == 0 {
        view
    } else {
        let before = laid_out(view, declarations.drop_last());
        match declarations.last() {
            Declaration::Open(label) => before.opened(label),
            Declaration::Close => before.closed_one(),
            Declaration::Widget(label, idx, typ) => before.with_widget(label, idx, typ),
            Declaration::Metadata(param, key, value) => before.declared(param, key, value),
        }
    }
}

/// The number of groups that began and have not ended.
pub open spec fn depth(declarations: Seq<Declaration>) -> int
    decreases declarations.len(),
{
    if declarations.len() == 0 {
        0
    } else {
        depth(declarations.drop_last()) + match declarations.last() {
            Declaration::Open(_) => 1int,
            Declaration::Close => -1int,
            _ => 0int,
        }
    }
}

/// No group ends that did not begin.
pub open spec fn nested(declarations: Seq<Declaration>) -> bool {
    forall|n: int| 0 <= n <= declarations.len() ==> depth(#[trigger] declarations.take(n)) >= 0
}

/// Every group that began has ended, and no other.
pub open spec fn balanced(declarations: Seq<Declaration>) -> bool {
    nested(declarations) && depth(declarations) == 0
}

/// A group that was opened and closed leaves the builder as it was, unless it is the first
/// group of all.
pub proof fn close_undoes_open(view: ParamsView, label: Seq<char>)
    requires
        !view.first_group,
    ensures
        view.opened(label).closed_one() == view,
{
    assert(view.opened(label).closed_one() =~= view);
}

proof fn groups_stack_up(view: ParamsView, declarations: Seq<Declaration>)
    requires
        !view.first_group,
        nested(declarations),
    ensures
        !laid_out(view, declarations).first_group,
        laid_out(view, declarations).prefix.len() == view.prefix.len() + depth(declarations),
        laid_out(view, declarations).prefix.take(view.prefix.len() as int) == view.prefix,
    decreases declarations.len(),
{
    if declarations.len() == 0 {
        assert(view.prefix.take(view.prefix.len() as int) =~= view.prefix);
    } else {
        let front = declarations.drop_last();
        assert forall|n: int| 0 <= n <= front.len() implies depth(#[trigger] front.take(n))
            >= 0 by {
            assert(front.take(n) =~= declarations.take(n));
        }
        groups_stack_up(view, front);
        assert(declarations.take(declarations.len() as int) =~= declarations);
        let before = laid_out(view, front);
        let after = laid_out(view, declarations);
        assert(after.prefix.take(view.prefix.len() as int) =~= before.prefix.take(
            view.prefix.len() as int,
        ));
    }
}

/// After declarations in which every group ends that began, the open groups are those that
/// were open before.
pub proof fn balanced_groups_leave_no_trace(view: ParamsView, declarations: Seq<Declaration>)
    requires
        !view.first_group,
        balanced(declarations),
    ensures
        laid_out(view, declarations).prefix == view.prefix,
{
    groups_stack_up(view, declarations);
    let after = laid_out(view, declarations);
    assert(after.prefix.take(view.prefix.len() as int) =~= after.prefix);
}

proof fn laid_out_in_two(view: ParamsView, first: Seq<Declaration>, second: Seq<Declaration>)
    ensures
        laid_out(view, first + second) == laid_out(laid_out(view, first), second),
    decreases second.len(),
{
    if second.len() == 0 {
        assert(first + second =~= first);
    } else {
        assert((first + second).drop_last() =~= first + second.drop_last());
        laid_out_in_two(view, first, second.drop_last());
    }
}

/// The group around the whole interface is part of no path: inside it, before and after any
/// balanced declarations, no group counts as open.
pub proof fn outer_group_is_no_prefix(label: Seq<char>, body: Seq<Declaration>)
    requires
        balanced(body),
    ensures
        laid_out(ParamsView::blank(), seq![Declaration::Open(label)] + body).prefix == Seq::<
            Seq<char>,
        >::empty(),
        laid_out(
            ParamsView::blank(),
            seq![Declaration::Open(label)] + body + seq![Declaration::Close],
        ).prefix == Seq::<Seq<char>>::empty(),
{
    let start = seq![Declaration::Open(label)];
    assert(start.drop_last() == Seq::<Declaration>::empty());
    reveal_with_fuel(laid_out, 2);
    let inside = laid_out(ParamsView::blank(), start);
    laid_out_in_two(ParamsView::blank(), start, body);
    balanced_groups_leave_no_trace(inside, body);
    let whole = start + body + seq![Declaration::Close];
    assert(whole.drop_last() =~= start + body);
}

/// The path of a new widget names the open groups and the widget, with slashes between
/// them. A single open group without a name is the exception: it adds nothing to the path.
pub proof fn path_names_the_groups(
    view: ParamsView,
    label: Seq<char>,
    idx: i32,
    typ: WidgetType,
)
    requires
        !view.inner.contains_key(idx),
        view.prefix.len() == 1 ==> view.prefix[0].len() > 0,
    ensures
        view.with_widget(label, idx, typ).inner[idx].path() == text::joined(
            view.prefix.push(label),
        ),
{
    reveal_strlit("/");
    assert(view.prefix.push(label).drop_last() =~= view.prefix);
    assert(view.prefix.len() == 0 ==> text::joined(view.prefix) =~= Seq::<char>::empty());
}

/// Metadata can be declared before or after the widget of its parameter.
pub proof fn metadata_before_or_after_widget(
    view: ParamsView,
    label: Seq<char>,
    idx: i32,
    typ: WidgetType,
    key: Seq<char>,
    value: Seq<char>,
)
    ensures
        view.declared(Some(idx), key, value).with_widget(label, idx, typ) == view.with_widget(
            label,
            idx,
            typ,
        ).declared(Some(idx), key, value),
{
    let before = view.declared(Some(idx), key, value).with_widget(label, idx, typ);
    let after = view.with_widget(label, idx, typ).declared(Some(idx), key, value);
    assert(before.inner[idx].metadata =~= after.inner[idx].metadata);
    assert(before.inner =~= after.inner);
}

/// A second widget for a parameter changes its label and type, but neither its place nor its
/// metadata.
pub proof fn second_widget_keeps_place(
    view: ParamsView,
    label: Seq<char>,
    idx: i32,
    typ: WidgetType,
)
    requires
        view.inner.contains_key(idx),
    ensures
        ({
            let node = view.with_widget(label, idx, typ).inner[idx];
            &&& node.label == label
            &&& node.typ == typ
            &&& node.prefix == view.inner[idx].prefix
            &&& node.metadata == view.inner[idx].metadata
        }),
{
    assert(view.with_widget(label, idx, typ).inner[idx].metadata =~= view.inner[idx].metadata);
}

/// A declaration is about the parameter.
pub open spec fn concerns(declaration: Declaration, idx: i32) -> bool {
    match declaration {
        Declaration::Widget(_, i, _) => i == idx,
        Declaration::Metadata(param, _, _) => param == Some(idx),
        _ => false,
    }
}

/// Some declaration is about the parameter.
pub open spec fn mentioned(declarations: Seq<Declaration>, idx: i32) -> bool {
    exists|i: int| 0 <= i < declarations.len() && concerns(#[trigger] declarations[i], idx)
}

/// The type of the last widget that was declared for the parameter.
pub open spec fn last_type(declarations: Seq<Declaration>, idx: i32) -> WidgetType
    decreases declarations.len(),
{
    if declarations.len() == 0 {
        WidgetType::Unknown
    } else {
        match declarations.last() {
            Declaration::Widget(_, i, typ) => if i == idx {
                typ
            } else {
                last_type(declarations.drop_last(), idx)
            },
            _ => last_type(declarations.drop_last(), idx),
        }
    }
}

/// The metadata that was declared for the parameter, first to last.
pub open spec fn metadata_of(declarations: Seq<Declaration>, idx: i32) -> Seq<
    (Seq<char>, Seq<char>),
>
    decreases declarations.len(),
{
    if declarations.len() == 0 {
        Seq::empty()
    } else {
        let earlier = metadata_of(declarations.drop_last(), idx);
        match declarations.last() {
            Declaration::Metadata(param, key, value) => if param == Some(idx) {
                earlier.push((key, value))
            } else {
                earlier
            },
            _ => earlier,
        }
    }
}

/// The label of the last widget that was declared for the parameter.
pub open spec fn last_label(declarations: Seq<Declaration>, idx: i32) -> Seq<char>
    decreases declarations.len(),
{
    if declarations.len() == 0 {
        "Unknown"@
    } else {
        match declarations.last() {
            Declaration::Widget(label, i, _) => if i == idx {
                label
            } else {
                last_label(declarations.drop_last(), idx)
            },
            _ => last_label(declarations.drop_last(), idx),
        }
    }
}

/// The declaration in place `n` is the first that is about the parameter.
pub open spec fn first_mention(declarations: Seq<Declaration>, idx: i32, n: int) -> bool {
    &&& 0 <= n < declarations.len()
    &&& concerns(declarations[n], idx)
    &&& !mentioned(declarations.take(n), idx)
}

/// A parameter stands below the groups that were open when it was first mentioned, wherever
/// else it was mentioned.
pub proof fn place_is_that_of_the_first_mention(
    declarations: Seq<Declaration>,
    idx: i32,
    n: int,
)
    requires
        first_mention(declarations, idx, n),
    ensures
        laid_out(ParamsView::blank(), declarations).inner[idx].prefix == text::joined(
            laid_out(ParamsView::blank(), declarations.take(n)).prefix,
        ),
    decreases declarations.len(),
{
    let front = declarations.drop_last();
    let last = declarations.len() - 1;
    parameters_are_as_declared(front, idx);
    if n == last {
        assert(declarations.take(n) =~= front);
    } else {
        assert(front.take(n) =~= declarations.take(n));
        assert(front[n] == declarations[n]);
        place_is_that_of_the_first_mention(front, idx, n);
    }
}

/// The parameters are those that some declaration is about. Each has the label and the type
/// of its last widget, and is called and typed unknown only if it has none or was declared
/// so, and it has all the metadata that was declared for it, in order.
pub proof fn parameters_are_as_declared(declarations: Seq<Declaration>, idx: i32)
    ensures
        ({
            let inner = laid_out(ParamsView::blank(), declarations).inner;
            &&& inner.contains_key(idx) == mentioned(declarations, idx)
            &&& inner.contains_key(idx) ==> inner[idx].label == last_label(declarations, idx)
            &&& inner.contains_key(idx) ==> inner[idx].typ == last_type(declarations, idx)
            &&& inner.contains_key(idx) ==> inner[idx].metadata == metadata_of(declarations, idx)
            &&& !inner.contains_key(idx) ==> last_label(declarations, idx) == "Unknown"@
                && last_type(declarations, idx) is Unknown && metadata_of(
                declarations,
                idx,
            ).len() == 0
        }),
    decreases declarations.len(),
{
    if declarations.len() > 0 {
        let front = declarations.drop_last();
        let last = declarations.len() - 1;
        parameters_are_as_declared(front, idx);
        if mentioned(front, idx) {
            let i = choose|i: int| 0 <= i < front.len() && concerns(#[trigger] front[i], idx);
            assert(concerns(declarations[i], idx));
        }
        if mentioned(declarations, idx) && !concerns(declarations[last], idx) {
            let i = choose|i: int|
                0 <= i < declarations.len() && concerns(#[trigger] declarations[i], idx);
            assert(concerns(front[i], idx));
        }
        let inner = laid_out(ParamsView::blank(), declarations).inner;
        if inner.contains_key(idx) {
            assert(inner[idx].metadata =~= metadata_of(declarations, idx));
        }
    }
}

/// A group that begins is open behind those that were open, under its own label; the first
/// group of all is not. Nothing else changes.
pub proof fn opening_adds_the_label(view: ParamsView, label: Seq<char>)
    ensures
        view.first_group ==> view.opened(label).prefix == view.prefix,
        !view.first_group ==> {
            &&& view.opened(label).prefix.len() == view.prefix.len() + 1
            &&& view.opened(label).prefix.last() == label
            &&& view.opened(label).prefix.drop_last() == view.prefix
        },
        !view.opened(label).first_group,
        view.opened(label).inner == view.inner,
{
    assert(!view.first_group ==> view.opened(label).prefix.drop_last() =~= view.prefix);
}

/// A group that ends takes the last label off, if there is one. Nothing else changes.
pub proof fn closing_takes_the_last_label_off(
    view: ParamsView,
    outer: Seq<Seq<char>>,
    label: Seq<char>,
)
    ensures
        view.prefix == outer.push(label) ==> view.closed_one().prefix == outer,
        view.prefix.len() == 0 ==> view.closed_one().prefix == view.prefix,
        view.closed_one().first_group == view.first_group,
        view.closed_one().inner == view.inner,
{
    assert(outer.push(label).drop_last() =~= outer);
}

/// A builder starts without parameters and without open groups, before the first group.
pub proof fn builders_start_blank(idx: i32)
    ensures
        !ParamsView::blank().inner.contains_key(idx),
        ParamsView::blank().prefix.len() == 0,
        ParamsView::blank().first_group,
{
}

/// A widget gives its parameter its label and its type. A new parameter stands below the open
/// groups and has the metadata that came with the widget; one that is there keeps its place
/// and its metadata and gets more. No other parameter and no group changes.
pub proof fn widget_is_added(
    view: ParamsView,
    label: Seq<char>,
    idx: i32,
    typ: WidgetType,
    metadata: Seq<(Seq<char>, Seq<char>)>,
    other: i32,
)
    ensures
        ({
            let after = view.added(label, idx, typ, metadata);
            let node = after.inner[idx];
            &&& after.inner.contains_key(idx)
            &&& node.label == label
            &&& node.typ == typ
            &&& !view.inner.contains_key(idx) ==> {
                &&& node.prefix == text::joined(view.prefix)
                &&& node.metadata == metadata
            }
            &&& view.inner.contains_key(idx) ==> {
                &&& node.prefix == view.inner[idx].prefix
                &&& node.metadata == view.inner[idx].metadata + metadata
            }
            &&& other != idx ==> after.inner.contains_key(other) == view.inner.contains_key(other)
            &&& other != idx && view.inner.contains_key(other) ==> after.inner[other]
                == view.inner[other]
            &&& after.prefix == view.prefix
            &&& after.first_group == view.first_group
            &&& view.with_widget(label, idx, typ) == view.added(
                label,
                idx,
                typ,
                Seq::<(Seq<char>, Seq<char>)>::empty(),
            )
        }),
{
}

/// Metadata of a parameter is added behind what it has and changes nothing else of it; a
/// parameter that is not there yet is added below the open groups, called and typed unknown.
/// Metadata of no parameter changes nothing, and no other parameter and no group changes.
pub proof fn metadata_is_added(
    view: ParamsView,
    idx: i32,
    key: Seq<char>,
    value: Seq<char>,
    other: i32,
)
    ensures
        view.declared(None, key, value) == view,
        ({
            let after = view.declared(Some(idx), key, value);
            let node = after.inner[idx];
            &&& after.inner.contains_key(idx)
            &&& view.inner.contains_key(idx) ==> {
                &&& node.label == view.inner[idx].label
                &&& node.prefix == view.inner[idx].prefix
                &&& node.typ == view.inner[idx].typ
                &&& node.metadata == view.inner[idx].metadata.push((key, value))
            }
            &&& !view.inner.contains_key(idx) ==> {
                &&& node.label == "Unknown"@
                &&& node.prefix == text::joined(view.prefix)
                &&& node.typ is Unknown
                &&& node.metadata == seq![(key, value)]
            }
            &&& other != idx ==> after.inner.contains_key(other) == view.inner.contains_key(other)
            &&& other != idx && view.inner.contains_key(other) ==> after.inner[other]
                == view.inner[other]
            &&& after.prefix == view.prefix
            &&& after.first_group == view.first_group
        }),
{
}

/// A group counts as open only if another began before it.
pub proof fn first_group_is_the_first_to_begin(declarations: Seq<Declaration>)
    ensures
        laid_out(ParamsView::blank(), declarations).first_group <==> forall|i: int|
            0 <= i < declarations.len() ==> !((#[trigger] declarations[i]) is Open),
    decreases declarations.len(),
{
    if declarations.len() > 0 {
        let front = declarations.drop_last();
        first_group_is_the_first_to_begin(front);
        let last = declarations.len() - 1;
        assert(declarations[last] == declarations.last());
        if laid_out(ParamsView::blank(), front).first_group {
            assert forall|i: int| 0 <= i < last implies !((#[trigger] declarations[i]) is Open) by {
                assert(front[i] == declarations[i]);
            }
        } else {
            let i = choose|i: int| 0 <= i < front.len() && (#[trigger] front[i]) is Open;
            assert(declarations[i] is Open);
        }
    }
}

/// A group that began and has not ended stands among the open groups under its own label,
/// right behind those that were open when it began, whatever was declared before it and
/// inside it. The first group of all is the exception.
pub proof fn open_group_has_its_label(
    declarations: Seq<Declaration>,
    i: int,
    label: Seq<char>,
    earlier: int,
)
    requires
        0 <= earlier < i < declarations.len(),
        declarations[earlier] is Open,
        declarations[i] == Declaration::Open(label),
        nested(declarations.skip(i + 1)),
    ensures
        ({
            let outer = laid_out(ParamsView::blank(), declarations.take(i)).prefix;
            let groups = laid_out(ParamsView::blank(), declarations).prefix;
            &&& groups.len() == outer.len() + 1 + depth(declarations.skip(i + 1))
            &&& groups.take(outer.len() as int) == outer
            &&& groups[outer.len() as int] == label
        }),
{
    let start = declarations.take(i);
    let inside = declarations.skip(i + 1);
    first_group_is_the_first_to_begin(start);
    assert(start[earlier] is Open);
    let outer = laid_out(ParamsView::blank(), start);
    let opened = outer.opened(label);
    assert(start.push(Declaration::Open(label)).drop_last() =~= start);
    assert(laid_out(ParamsView::blank(), start.push(Declaration::Open(label))) == opened);
    assert(declarations =~= start.push(Declaration::Open(label)) + inside);
    laid_out_in_two(ParamsView::blank(), start.push(Declaration::Open(label)), inside);
    groups_stack_up(opened, inside);
    assert(inside.take(inside.len() as int) =~= inside);
    let groups = laid_out(ParamsView::blank(), declarations).prefix;
    let n = opened.prefix.len() as int;
    assert(groups.take(n) == opened.prefix);
    assert(groups.take(n)[n - 1] == label);
    assert(groups.take(n - 1) =~= groups.take(n).take(n - 1));
    assert(opened.prefix.take(n - 1) =~= outer.prefix);
}

/// Groups that begin one inside the other, each followed by declarations in which every group
/// ends that began.
pub open spec fn groups_within(
    labels: Seq<Seq<char>>,
    bodies: Seq<Seq<Declaration>>,
) -> Seq<Declaration>
    decreases labels.len(),
{
    if labels.len() == 0 {
        Seq::empty()
    } else {
        groups_within(labels.drop_last(), bodies.drop_last()) + seq![
            Declaration::Open(labels.last()),
        ] + bodies.last()
    }
}

/// The open groups are those that began and have not ended, outermost first.
pub proof fn open_groups_are_those_that_began(
    view: ParamsView,
    labels: Seq<Seq<char>>,
    bodies: Seq<Seq<Declaration>>,
)
    requires
        !view.first_group,
        bodies.len() == labels.len(),
        forall|i: int| 0 <= i < bodies.len() ==> balanced(#[trigger] bodies[i]),
    ensures
        laid_out(view, groups_within(labels, bodies)).prefix == view.prefix + labels,
        !laid_out(view, groups_within(labels, bodies)).first_group,
    decreases labels.len(),
{
    if labels.len() == 0 {
        assert(view.prefix + labels =~= view.prefix);
    } else {
        let outer = groups_within(labels.drop_last(), bodies.drop_last());
        let open = seq![Declaration::Open(labels.last())];
        let body = bodies.last();
        assert forall|i: int| 0 <= i < bodies.drop_last().len() implies balanced(
            #[trigger] bodies.drop_last()[i],
        ) by {
            assert(balanced(bodies[i]));
        }
        open_groups_are_those_that_began(view, labels.drop_last(), bodies.drop_last());
        assert(balanced(bodies[bodies.len() - 1]));
        assert((outer + open).drop_last() =~= outer);
        assert((outer + open).last() == open[0]);
        let opened = laid_out(view, outer + open);
        laid_out_in_two(view, outer + open, body);
        balanced_groups_leave_no_trace(opened, body);
        groups_stack_up(opened, body);
        assert(opened.prefix =~= view.prefix + labels);
    }
}

/// Of groups that begin one inside the other, all but the first of all are open, each under
/// its own label, however many there are and whatever they are called.
pub proof fn all_groups_but_the_first_are_open(
    labels: Seq<Seq<char>>,
    bodies: Seq<Seq<Declaration>>,
)
    requires
        labels.len() > 0,
        bodies.len() == labels.len(),
        forall|i: int| 0 <= i < bodies.len() ==> balanced(#[trigger] bodies[i]),
    ensures
        laid_out(
            ParamsView::blank(),
            groups_within(labels, bodies),
        ).prefix == labels.drop_first(),
    decreases labels.len(),
{
    let outer = groups_within(labels.drop_last(), bodies.drop_last());
    let open = seq![Declaration::Open(labels.last())];
    let body = bodies.last();
    let blank = ParamsView::blank();
    assert(balanced(bodies[bodies.len() - 1]));
    if labels.len() > 1 {
        assert forall|i: int| 0 <= i < bodies.drop_last().len() implies balanced(
            #[trigger] bodies.drop_last()[i],
        ) by {
            assert(balanced(bodies[i]));
        }
        all_groups_but_the_first_are_open(labels.drop_last(), bodies.drop_last());
        let inner = groups_within(
            labels.drop_last().drop_last(),
            bodies.drop_last().drop_last(),
        );
        assert(outer[inner.len() as int] is Open);
    }
    first_group_is_the_first_to_begin(outer);
    assert((outer + open).drop_last() =~= outer);
    assert((outer + open).last() == open[0]);
    let opened = laid_out(blank, outer + open);
    laid_out_in_two(blank, outer + open, body);
    balanced_groups_leave_no_trace(opened, body);
    assert(opened.prefix =~= labels.drop_first());
}

/// A parameter has the label and the type of the last widget that was declared for it.
pub proof fn last_widget_counts(
    declarations: Seq<Declaration>,
    idx: i32,
    k: int,
    label: Seq<char>,
    typ: WidgetType,
)
    requires
        0 <= k < declarations.len(),
        declarations[k] == Declaration::Widget(label, idx, typ),
        forall|j: int|
            k < j < declarations.len() ==> ((
            #[trigger] declarations[j]) matches Declaration::Widget(_, i, _) ==> i != idx),
    ensures
        laid_out(ParamsView::blank(), declarations).inner.contains_key(idx),
        laid_out(ParamsView::blank(), declarations).inner[idx].label == label,
        laid_out(ParamsView::blank(), declarations).inner[idx].typ == typ,
        last_label(declarations, idx) == label,
        last_type(declarations, idx) == typ,
    decreases declarations.len(),
{
    let last = declarations.len() - 1;
    assert(declarations[last] == declarations.last());
    if k < last {
        let front = declarations.drop_last();
        assert(front[k] == declarations[k]);
        assert forall|j: int| k < j < front.len() implies ((
        #[trigger] front[j]) matches Declaration::Widget(_, i, _) ==> i != idx) by {
            assert(front[j] == declarations[j]);
        }
        last_widget_counts(front, idx, k, label, typ);
    }
}

/// The path of a parameter that has a widget names the groups that were open at its first
/// mention and the label of its last widget, with one slash between each two, whatever
/// metadata was declared for it and wherever. A single open group without a name is the
/// exception: it adds nothing.
pub proof fn path_names_groups_and_label(
    declarations: Seq<Declaration>,
    idx: i32,
    first: int,
    last: int,
    label: Seq<char>,
    typ: WidgetType,
)
    requires
        first_mention(declarations, idx, first),
        0 <= last < declarations.len(),
        declarations[last] == Declaration::Widget(label, idx, typ),
        forall|j: int|
            last < j < declarations.len() ==> ((
            #[trigger] declarations[j]) matches Declaration::Widget(_, i, _) ==> i != idx),
    ensures
        ({
            let groups = laid_out(ParamsView::blank(), declarations.take(first)).prefix;
            let path = laid_out(ParamsView::blank(), declarations).inner[idx].path();
            if groups == seq![Seq::<char>::empty()] {
                path == label
            } else {
                path == text::joined(groups.push(label))
            }
        }),
{
    reveal_strlit("/");
    place_is_that_of_the_first_mention(declarations, idx, first);
    last_widget_counts(declarations, idx, last, label, typ);
    let groups = laid_out(ParamsView::blank(), declarations.take(first)).prefix;
    let node = laid_out(ParamsView::blank(), declarations).inner[idx];
    assert(groups.push(label).drop_last() =~= groups);
    if groups.len() == 1 && groups[0].len() == 0 {
        assert(groups[0] =~= Seq::<char>::empty());
        assert(groups =~= seq![Seq::<char>::empty()]);
    }
    assert(groups.len() > 1 ==> text::joined(groups).len() > 0);
    assert(groups != seq![Seq::<char>::empty()] && groups.len() == 1 ==> groups[0].len() > 0);
}

/// A parameter starts at the initial value of the last widget that was declared for it, if
/// that is a slider or a numeric entry, and at zero otherwise.
pub proof fn parameter_starts_as_declared(
    declarations: Seq<Declaration>,
    idx: i32,
    last: int,
    label: Seq<char>,
    typ: WidgetType,
)
    requires
        0 <= last < declarations.len(),
        declarations[last] == Declaration::Widget(label, idx, typ),
        forall|j: int|
            last < j < declarations.len() ==> ((
            #[trigger] declarations[j]) matches Declaration::Widget(_, i, _) ==> i != idx),
    ensures
        ({
            let params = laid_out(ParamsView::blank(), declarations).inner;
            handle::initial_values(params).contains_pair(
                idx,
                match typ {
                    WidgetType::VerticalSlider(input) => input.init,
                    WidgetType::HorizontalSlider(input) => input.init,
                    WidgetType::NumEntry(input) => input.init,
                    _ => 0,
                },
            )
        }),
{
    last_widget_counts(declarations, idx, last, label, typ);
}

} // verus!
