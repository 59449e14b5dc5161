//! What a lookup or a conversion reports when it fails. Every error holds a
//! copy of the node, entry or value it is about, so that a message can be
//! made from it alone.
use crate::tree::{Entry, EntryView, Node, NodeKey, NodeKeyView, NodeView, Value, ValueView};
use vstd::prelude::*;

verus! {

/// The node is missing an entry that was required.
#[derive(Debug, PartialEq, Eq)]
pub struct MissingEntry {
    pub node: Node,
    pub key: NodeKey,
}

/// What a missing entry is about: the node, and the position or name asked
/// for.
pub struct MissingEntryView {
    pub node: NodeView,
    pub key: NodeKeyView,
}

impl View for MissingEntry {
    type V = MissingEntryView;

    open spec fn view(&self) -> MissingEntryView {
        MissingEntryView { node: self.node@, key: self.key@ }
    }
}

impl Clone for MissingEntry {
    fn clone(&self) -> (r: Self)
        ensures
            r@ == self@,
    {
        MissingEntry { node: self.node.clone(), key: self.key.clone() }
    }
}

impl MissingEntry {
    /// `node` has no argument at position `idx`.
    pub fn new_index(node: &Node, idx: usize) -> (e: MissingEntry)
        ensures
            e@ == (MissingEntryView { node: node@, key: NodeKeyView::Index(idx) }),
    {
        MissingEntry { node: node.clone(), key: NodeKey::Index(idx) }
    }

    /// `node` has no property named `key`.
    pub fn new_prop(node: &Node, key: &str) -> (e: MissingEntry)
        ensures
            e@ == (MissingEntryView { node: node@, key: NodeKeyView::Key(key@) }),
    {
        MissingEntry { node: node.clone(), key: NodeKey::Key(key.to_owned()) }
    }
}

/// The entry is missing a type tag that was required.
#[derive(Debug, PartialEq, Eq)]
pub struct MissingEntryType {
    pub value: Entry,
}

impl View for MissingEntryType {
    type V = EntryView;

    open spec fn view(&self) -> EntryView {
        self.value@
    }
}

impl Clone for MissingEntryType {
    fn clone(&self) -> (r: Self)
        ensures
            r@ == self@,
    {
        MissingEntryType { value: self.value.clone() }
    }
}

/// The node has no child of the name that was asked for.
#[derive(Debug, PartialEq, Eq)]
pub struct NodeMissingChild {
    pub node: Node,
    pub child_name: String,
}

/// What a missing child is about: the node, and the name asked for.
pub struct NodeMissingChildView {
    pub node: NodeView,
    pub child_name: Seq<char>,
}

impl View for NodeMissingChild {
    type V = NodeMissingChildView;

    open spec fn view(&self) -> NodeMissingChildView {
        NodeMissingChildView { node: self.node@, child_name: self.child_name@ }
    }
}

impl Clone for NodeMissingChild {
    fn clone(&self) -> (r: Self)
        ensures
            r@ == self@,
    {
        NodeMissingChild { node: self.node.clone(), child_name: self.child_name.clone() }
    }
}

/// The node has no block of children.
#[derive(Debug, PartialEq, Eq)]
pub struct MissingNodeDocument {
    pub node: Node,
}

impl View for MissingNodeDocument {
    type V = NodeView;

    open spec fn view(&self) -> NodeView {
        self.node@
    }
}

impl Clone for MissingNodeDocument {
    fn clone(&self) -> (r: Self)
        ensures
            r@ == self@,
    {
        MissingNodeDocument { node: self.node.clone() }
    }
}

/// The name of the kind of `value`.
pub open spec fn kind_name(value: ValueView) -> Seq<char> {
    match value {
        ValueView::String(_) => "String"@,
        ValueView::Integer(_) => "Integer"@,
        ValueView::Float(_) => "Float"@,
        ValueView::Bool(_) => "Bool"@,
        ValueView::Null => "Null"@,
    }
}

/// The value is of another kind than the one that was asked for.
#[derive(Debug, PartialEq, Eq)]
pub struct ValueTypeMismatch {
    pub expected_type: &'static str,
    pub actual_type: &'static str,
    pub value: Value,
}

/// What a mismatch is about: the kind asked for, the kind found, and the
/// value.
pub struct ValueTypeMismatchView {
    pub expected_type: Seq<char>,
    pub actual_type: Seq<char>,
    pub value: ValueView,
}

impl View for ValueTypeMismatch {
    type V = ValueTypeMismatchView;

    open spec fn view(&self) -> ValueTypeMismatchView {
        ValueTypeMismatchView {
            expected_type: self.expected_type@,
            actual_type: self.actual_type@,
            value: self.value@,
        }
    }
}

/// The mismatch that a `value` gives where a `desired` kind was asked for.
pub open spec fn mismatch(value: ValueView, desired: Seq<char>) -> ValueTypeMismatchView {
    ValueTypeMismatchView { expected_type: desired, actual_type: kind_name(value), value }
}

impl ValueTypeMismatch {
    /// The mismatch that `value` gives where a `desired` kind was asked for.
    pub fn new(value: &Value, desired: &'static str) -> (e: ValueTypeMismatch)
        ensures
            e@ == mismatch(value@, desired@),
    {
        let actual_name = match value {
            Value::String(_) => "String",
            Value::Integer(_) => "Integer",
            Value::Float(_) => "Float",
            Value::Bool(_) => "Bool",
            Value::Null => "Null",
        };
        ValueTypeMismatch { expected_type: desired, actual_type: actual_name, value: value.clone() }
    }
}

/// An argument with a type tag was asked for, and the argument or its tag
/// is missing.
#[derive(Debug, PartialEq, Eq)]
pub enum MissingTypedEntry {
    MissingValue(MissingEntry),
    MissingType(MissingEntryType),
}

/// A value was required: it was not there, or it was there and could not be
/// decoded.
#[derive(Debug, PartialEq, Eq)]
pub enum RequiredValue<E> {
    Missing(MissingEntry),
    Parse(E),
}

/// A child was required: it was not there, or it was there and could not be
/// decoded.
#[derive(Debug, PartialEq, Eq)]
pub enum RequiredChild<E> {
    Missing(NodeMissingChild),
    Parse(E),
}

/// A string value was asked for and then parsed: the value was of another
/// kind, or the parser refused the string.
#[derive(Debug, PartialEq, Eq)]
pub enum FailedToParseValueString<E> {
    TypeMismatch(ValueTypeMismatch),
    FromStr(E),
}

/// Any failure of a lookup or a conversion, and what a decode function of
/// the application reports by its message.
#[derive(Debug, PartialEq, Eq)]
pub enum QueryError {
    MissingValue(MissingEntry),
    MissingType(MissingEntryType),
    ValueTypeMismatch(ValueTypeMismatch),
    MissingChild(NodeMissingChild),
    UserProvided(String),
}

/// What any of the failures is about.
pub enum QueryErrorView {
    MissingValue(MissingEntryView),
    MissingType(EntryView),
    ValueTypeMismatch(ValueTypeMismatchView),
    MissingChild(NodeMissingChildView),
    UserProvided(Seq<char>),
}

impl View for QueryError {
    type V = QueryErrorView;

    open spec fn view(&self) -> QueryErrorView {
        match self {
            QueryError::MissingValue(e) => QueryErrorView::MissingValue(e@),
            QueryError::MissingType(e) => QueryErrorView::MissingType(e@),
            QueryError::ValueTypeMismatch(e) => QueryErrorView::ValueTypeMismatch(e@),
            QueryError::MissingChild(e) => QueryErrorView::MissingChild(e@),
            QueryError::UserProvided(m) => QueryErrorView::UserProvided(m@),
        }
    }
}

impl From<MissingEntry> for QueryError {
    fn from(value: MissingEntry) -> (r: Self) {
        QueryError::MissingValue(value)
    }
}

impl vstd::std_specs::convert::FromSpecImpl<MissingEntry> for QueryError {
    open spec fn obeys_from_spec() -> bool {
        true
    }

    open spec fn from_spec(value: MissingEntry) -> Self {
        QueryError::MissingValue(value)
    }
}

impl From<MissingEntryType> for QueryError {
    fn from(value: MissingEntryType) -> (r: Self) {
        QueryError::MissingType(value)
    }
}

impl vstd::std_specs::convert::FromSpecImpl<MissingEntryType> for QueryError {
    open spec fn obeys_from_spec() -> bool {
        true
    }

    open spec fn from_spec(value: MissingEntryType) -> Self {
        QueryError::MissingType(value)
    }
}

impl From<ValueTypeMismatch> for QueryError {
    fn from(value: ValueTypeMismatch) -> (r: Self) {
        QueryError::ValueTypeMismatch(value)
    }
}

impl vstd::std_specs::convert::FromSpecImpl<ValueTypeMismatch> for QueryError {
    open spec fn obeys_from_spec() -> bool {
        true
    }

    open spec fn from_spec(value: ValueTypeMismatch) -> Self {
        QueryError::ValueTypeMismatch(value)
    }
}

impl From<NodeMissingChild> for QueryError {
    fn from(value: NodeMissingChild) -> (r: Self) {
        QueryError::MissingChild(value)
    }
}

impl vstd::std_specs::convert::FromSpecImpl<NodeMissingChild> for QueryError {
    open spec fn obeys_from_spec() -> bool {
        true
    }

    open spec fn from_spec(value: NodeMissingChild) -> Self {
        QueryError::MissingChild(value)
    }
}

impl From<RequiredValue<ValueTypeMismatch>> for QueryError {
    fn from(value: RequiredValue<ValueTypeMismatch>) -> (r: Self) {
        match value {
            RequiredValue::Missing(missing) => QueryError::MissingValue(missing),
            RequiredValue::Parse(mismatch) => QueryError::ValueTypeMismatch(mismatch),
        }
    }
}

impl vstd::std_specs::convert::FromSpecImpl<RequiredValue<ValueTypeMismatch>> for QueryError {
    open spec fn obeys_from_spec() -> bool {
        true
    }

    open spec fn from_spec(value: RequiredValue<ValueTypeMismatch>) -> Self {
        match value {
            RequiredValue::Missing(missing) => QueryError::MissingValue(missing),
            RequiredValue::Parse(mismatch) => QueryError::ValueTypeMismatch(mismatch),
        }
    }
}

impl From<MissingEntry> for MissingTypedEntry {
    fn from(value: MissingEntry) -> (r: Self) {
        MissingTypedEntry::MissingValue(value)
    }
}

impl vstd::std_specs::convert::FromSpecImpl<MissingEntry> for MissingTypedEntry {
    open spec fn obeys_from_spec() -> bool {
        true
    }

    open spec fn from_spec(value: MissingEntry) -> Self {
        MissingTypedEntry::MissingValue(value)
    }
}

impl From<MissingEntryType> for MissingTypedEntry {
    fn from(value: MissingEntryType) -> (r: Self) {
        MissingTypedEntry::MissingType(value)
    }
}

impl vstd::std_specs::convert::FromSpecImpl<MissingEntryType> for MissingTypedEntry {
    open spec fn obeys_from_spec() -> bool {
        true
    }

    open spec fn from_spec(value: MissingEntryType) -> Self {
        MissingTypedEntry::MissingType(value)
    }
}

impl<E> From<E> for RequiredChild<E> {
    fn from(value: E) -> (r: Self) {
        RequiredChild::Parse(value)
    }
}

impl<E> vstd::std_specs::convert::FromSpecImpl<E> for RequiredChild<E> {
    open spec fn obeys_from_spec() -> bool {
        true
    }

    open spec fn from_spec(value: E) -> Self {
        RequiredChild::Parse(value)
    }
}

} // verus!
