//! Building a node: entries and children are pushed in any order, and
//! `build` puts them in the order that a node has.
use vstd::prelude::*;

mod built_node;
mod entry;
mod node;
mod order;

pub use order::{
    kept_pushes, lemma_arguments_come_first, lemma_built_arguments, lemma_built_named,
    lemma_built_node_reads_back, lemma_lone_argument_reads_back,
    lemma_lone_property_reads_back, lemma_null_argument_is_dropped,
    lemma_null_property_is_kept_unless_omitted, lemma_pushes_then_build, pushed_all,
};
pub use built_node::{kept_of, BuiltNode, BuiltNodeList};
pub use entry::{Entry, InnerValue, IntoEntry, Property, Typed, Value};
pub use node::{
    all_encoded, all_written, argument_of, built, built_children, child_pushed, empty,
    encoded_at, entry_pushed, full_values, is_bare, is_empty_string, is_empty_value,
    lemma_live_arguments_push, lemma_merge_nothing, live_arguments, lone_entry, merged,
    node_children_pushed, ordered_entries, push_node_children, push_value_children, pushed_child,
    pushed_entry, tagged, typed, value_child, value_children, value_children_pushed, written_and_merged,
    written_at, Child, Children, IntoNodeBuilder, Node, NodeComponent, NodeView,
};

verus! {

/// Marks a component that is left out where it holds nothing.
pub struct OmitIfEmpty<V>(pub V);

/// Marks a component that is left out where its value equals the second
/// field.
pub struct OmitIfEqual<V, T>(pub V, pub T);

} // verus!
