//! What `build` guarantees of the order of entries, and of the entries that
//! it or a push leaves out.
use super::{
    argument_of, built, empty, is_empty_value, live_arguments, lone_entry, ordered_entries,
    pushed_entry, NodeView,
};
use crate::tree;
use crate::tree::{EntryView, ValueView};
use vstd::prelude::*;

verus! {

/// In a finished node every positional entry comes before every named
/// entry: up to the number of positional entries that carry a value there
/// are just these, in the order of their pushes, and from there on there
/// are just the named entries, in the order of their pushes, null or not.
pub proof fn lemma_arguments_come_first(pending: Seq<EntryView>)
    ensures
        ({
            let ordered = ordered_entries(pending);
            let split = live_arguments(pending).len() as int;
            &&& ordered.take(split) == live_arguments(pending)
            &&& ordered.skip(split) == tree::properties(pending)
            &&& forall|i: int|
                0 <= i < split ==> (#[trigger] ordered[i]).name is None && !(ordered[i].value
                    is Null)
            &&& forall|i: int| split <= i < ordered.len() ==> (#[trigger] ordered[i]).name is Some
        }),
{
    let ordered = ordered_entries(pending);
    let args = live_arguments(pending);
    let props = tree::properties(pending);
    let split = args.len() as int;
    assert(ordered.take(split) =~= args);
    assert(ordered.skip(split) =~= props);
    assert forall|i: int| 0 <= i < split implies (#[trigger] ordered[i]).name is None && !(
    ordered[i].value is Null) by {
        pending.lemma_filter_pred(|e: EntryView| e.name is None && !(e.value is Null), i);
        assert(ordered[i] == args[i]);
    }
    assert forall|i: int| split <= i < ordered.len() implies (#[trigger] ordered[i]).name
        is Some by {
        pending.lemma_filter_pred(|e: EntryView| e.name is Some, i - split);
        assert(ordered[i] == props[i - split]);
    }
}

/// A positional entry that holds null never shows in the finished node,
/// whatever the flag of its push.
pub proof fn lemma_null_argument_is_dropped(
    before: NodeView,
    ty: Option<Seq<char>>,
    omit_if_empty: bool,
    name: Seq<char>,
)
    ensures
        built(
            pushed_entry(
                before,
                EntryView { name: None, ty, value: ValueView::Null },
                omit_if_empty,
            ),
            name,
        ) == built(before, name),
{
    let e = EntryView { name: None, ty, value: ValueView::Null };
    super::lemma_live_arguments_push(before.entries, e);
    tree::lemma_filter_push(before.entries, |e: EntryView| e.name is Some, e);
}

/// A named entry that holds null is left out by a push with the flag set,
/// and without the flag it shows in the finished node, behind the named
/// entries pushed before it.
pub proof fn lemma_null_property_is_kept_unless_omitted(
    before: NodeView,
    key: Seq<char>,
    ty: Option<Seq<char>>,
    name: Seq<char>,
)
    ensures
        ({
            let e = EntryView { name: Some(key), ty, value: ValueView::Null };
            &&& pushed_entry(before, e, true) == before
            &&& built(pushed_entry(before, e, false), name).entries == built(
                before,
                name,
            ).entries.push(e)
            &&& built(pushed_entry(before, e, false), name).children == built(
                before,
                name,
            ).children
        }),
{
    let e = EntryView { name: Some(key), ty, value: ValueView::Null };
    super::lemma_live_arguments_push(before.entries, e);
    tree::lemma_filter_push(before.entries, |e: EntryView| e.name is Some, e);
    assert(built(pushed_entry(before, e, false), name).entries =~= built(
        before,
        name,
    ).entries.push(e));
}

/// The arguments of a finished node are the positional entries pushed
/// that carry a value, in the order of the pushes.
pub proof fn lemma_built_arguments(pending: Seq<EntryView>)
    ensures
        tree::arguments(ordered_entries(pending)) == live_arguments(pending),
{
    let args = live_arguments(pending);
    let props = tree::properties(pending);
    let is_arg = |e: EntryView| e.name is None;
    let is_live = |e: EntryView| e.name is None && !(e.value is Null);
    let is_prop = |e: EntryView| e.name is Some;
    Seq::filter_distributes_over_add(args, props, is_arg);
    assert forall|i: int| 0 <= i < args.len() implies is_arg(#[trigger] args[i]) by {
        pending.lemma_filter_pred(is_live, i);
    }
    tree::lemma_filter_all(args, is_arg);
    assert forall|i: int| 0 <= i < props.len() implies !is_arg(#[trigger] props[i]) by {
        pending.lemma_filter_pred(is_prop, i);
    }
    tree::lemma_filter_none(props, is_arg);
    assert(args + Seq::<EntryView>::empty() =~= args);
}

/// The entries of any one name of a finished node are the entries pushed
/// under that name, in the order of the pushes.
pub proof fn lemma_built_named(pending: Seq<EntryView>, key: Seq<char>)
    ensures
        tree::named(ordered_entries(pending), key) == tree::named(pending, key),
{
    let args = live_arguments(pending);
    let props = tree::properties(pending);
    let is_live = |e: EntryView| e.name is None && !(e.value is Null);
    let is_prop = |e: EntryView| e.name is Some;
    let is_key = |e: EntryView| e.name == Some(key);
    Seq::filter_distributes_over_add(args, props, is_key);
    assert forall|i: int| 0 <= i < args.len() implies !is_key(#[trigger] args[i]) by {
        pending.lemma_filter_pred(is_live, i);
    }
    tree::lemma_filter_none(args, is_key);
    tree::lemma_filter_twice(pending, is_prop, is_key);
    tree::lemma_filter_agree(pending, |e: EntryView| is_prop(e) && is_key(e), is_key);
    assert(Seq::<EntryView>::empty() + props.filter(is_key) =~= props.filter(is_key));
}

/// What a reader finds in a finished node: its arguments are the
/// positional entries pushed that carry a value, in the order of the
/// pushes; its entries of any one name are the entries pushed under that
/// name, in the order of the pushes; its children are the children pushed.
pub proof fn lemma_built_node_reads_back(pending: NodeView, name: Seq<char>, key: Seq<char>)
    ensures
        built(pending, name).name == name,
        tree::arguments(built(pending, name).entries) == live_arguments(pending.entries),
        tree::named(built(pending, name).entries, key) == tree::named(pending.entries, key),
        crate::reader::children_of(built(pending, name)) == pending.children,
{
    lemma_built_arguments(pending.entries);
    lemma_built_named(pending.entries, key);
}

/// A node built of one native value hands the value back as its first
/// argument, unless the value was written as null, or as the empty string
/// and pushed with the flag set: then the node has no argument.
pub proof fn lemma_lone_argument_reads_back(
    value: ValueView,
    omit_if_empty: bool,
    name: Seq<char>,
)
    ensures
        ({
            let node = built(lone_entry(argument_of(value), omit_if_empty), name);
            tree::argument_at(node.entries, 0) == if value is Null || (omit_if_empty
                && is_empty_value(value)) {
                None
            } else {
                Some(argument_of(value))
            }
        }),
{
    let e = argument_of(value);
    let none = Seq::<EntryView>::empty();
    let pending = if omit_if_empty && is_empty_value(value) {
        none
    } else {
        none.push(e)
    };
    assert(lone_entry(e, omit_if_empty).entries == pending);
    lemma_built_arguments(pending);
    tree::lemma_filter_empty(|e: EntryView| e.name is None && !(e.value is Null));
    super::lemma_live_arguments_push(none, e);
}

/// A node built of one property hands the property back under its name,
/// null or not, unless it was pushed with the flag set and its value was
/// written as null or as the empty string.
pub proof fn lemma_lone_property_reads_back(
    key: Seq<char>,
    ty: Option<Seq<char>>,
    value: ValueView,
    omit_if_empty: bool,
    name: Seq<char>,
)
    ensures
        ({
            let e = EntryView { name: Some(key), ty, value };
            let node = built(lone_entry(e, omit_if_empty), name);
            tree::property_named(node.entries, key) == if omit_if_empty && is_empty_value(value) {
                None
            } else {
                Some(e)
            }
        }),
{
    let e = EntryView { name: Some(key), ty, value };
    let none = Seq::<EntryView>::empty();
    let pending = if omit_if_empty && is_empty_value(value) {
        none
    } else {
        none.push(e)
    };
    assert(lone_entry(e, omit_if_empty).entries == pending);
    lemma_built_named(pending, key);
    tree::lemma_filter_empty(|e: EntryView| e.name == Some(key));
    tree::lemma_filter_push(none, |e: EntryView| e.name == Some(key), e);
}

/// What a builder that holds `before` holds after the pushes of `pushes`,
/// each an entry with the flag of its push, in their order.
pub open spec fn pushed_all(before: NodeView, pushes: Seq<(EntryView, bool)>) -> NodeView
    decreases pushes.len(),
{
    if pushes.len() == 0 {
        before
    } else {
        pushed_entry(pushed_all(before, pushes.drop_last()), pushes.last().0, pushes.last().1)
    }
}

/// The entries of `pushes` that their pushes do not leave out, in their
/// order.
pub open spec fn kept_pushes(pushes: Seq<(EntryView, bool)>) -> Seq<EntryView> {
    pushes.filter(|p: (EntryView, bool)| !(p.1 && is_empty_value(p.0.value))).map_values(
        |p: (EntryView, bool)| p.0,
    )
}

/// Whatever is pushed, in whatever order: the finished node holds the
/// positional entries that carry a value, in the order of their pushes,
/// and then the named entries that their pushes did not leave out, in the
/// order of their pushes.
pub proof fn lemma_pushes_then_build(pushes: Seq<(EntryView, bool)>, name: Seq<char>)
    ensures
        pushed_all(empty(), pushes).entries == kept_pushes(pushes),
        pushed_all(empty(), pushes).children == Seq::<tree::NodeView>::empty(),
        built(pushed_all(empty(), pushes), name).entries == live_arguments(kept_pushes(pushes))
            + tree::properties(kept_pushes(pushes)),
    decreases pushes.len(),
{
    let keep = |p: (EntryView, bool)| !(p.1 && is_empty_value(p.0.value));
    if pushes.len() == 0 {
        tree::lemma_filter_empty(keep);
        assert(kept_pushes(pushes) =~= Seq::<EntryView>::empty());
    } else {
        let front = pushes.drop_last();
        let last = pushes.last();
        lemma_pushes_then_build(front, name);
        assert(pushes =~= front.push(last));
        tree::lemma_filter_push(front, keep, last);
        if keep(last) {
            assert(kept_pushes(pushes) =~= kept_pushes(front).push(last.0));
        }
    }
}

} // verus!
