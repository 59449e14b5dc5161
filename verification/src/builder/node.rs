//! The builder itself: what is pushed is held until `build` orders it.
use super::{BuiltNode, InnerValue, IntoEntry, OmitIfEmpty, OmitIfEqual, Property, Typed, Value};
use crate::convert::AsKdlValue;
use crate::tree;
use crate::tree::{Entry, EntryView};
use crate::AsKdlNode;
use vstd::prelude::*;
use vstd::std_specs::cmp::PartialEqSpec;

verus! {

/// A node under construction: the entries and the children pushed so far.
#[derive(Debug)]
pub struct Node {
    pub entries: Vec<Entry>,
    pub children: Vec<tree::Node>,
}

/// What a builder holds: the entries and the children pushed so far, each
/// in the order of the pushes.
pub struct NodeView {
    pub entries: Seq<EntryView>,
    pub children: Seq<tree::NodeView>,
}

impl View for Node {
    type V = NodeView;

    open spec fn view(&self) -> NodeView {
        NodeView {
            entries: tree::entries_view(self.entries@),
            children: tree::nodes_view(self.children@),
        }
    }
}

/// A builder that holds nothing.
pub open spec fn empty() -> NodeView {
    NodeView { entries: Seq::empty(), children: Seq::empty() }
}

impl Default for Node {
    fn default() -> (node: Node)
        ensures
            node@ == empty(),
    {
        let node = Node { entries: Vec::new(), children: Vec::new() };
        proof {
            assert(node@.entries =~= Seq::empty());
            assert(node@.children =~= Seq::empty());
        }
        node
    }
}

impl Clone for Node {
    fn clone(&self) -> (r: Self)
        ensures
            r@ == self@,
    {
        Node { entries: tree::clone_entries(&self.entries), children: tree::clone_nodes(&self.children) }
    }
}

/// The positional entries that carry a value, in their order.
pub open spec fn live_arguments(pending: Seq<EntryView>) -> Seq<EntryView> {
    pending.filter(|e: EntryView| e.name is None && !(e.value is Null))
}

/// The entries of the finished node: every positional entry that carries a
/// value, then every named entry, each group in the order of the pushes.
pub open spec fn ordered_entries(pending: Seq<EntryView>) -> Seq<EntryView> {
    live_arguments(pending) + tree::properties(pending)
}

/// The node that `pending` becomes under `name`.
pub open spec fn built(pending: NodeView, name: Seq<char>) -> tree::NodeView {
    tree::NodeView {
        name,
        entries: ordered_entries(pending.entries),
        children: if pending.children.len() == 0 {
            None
        } else {
            Some(pending.children)
        },
    }
}

/// Whether a push with the flag set leaves `value` out: it is null, or it
/// is the empty string.
pub open spec fn is_empty_value(value: tree::ValueView) -> bool {
    value is Null || value == tree::ValueView::String(Seq::empty())
}

/// What a builder that holds `before` holds after `entry` is pushed.
pub open spec fn pushed_entry(before: NodeView, entry: EntryView, omit_if_empty: bool) -> NodeView {
    if omit_if_empty && is_empty_value(entry.value) {
        before
    } else {
        NodeView { entries: before.entries.push(entry), ..before }
    }
}

/// Whether a finished node holds nothing: no entries and no children.
pub open spec fn is_bare(node: tree::NodeView) -> bool {
    node.entries.len() == 0 && (node.children matches Some(nodes) ==> nodes.len() == 0)
}

/// What a builder that holds `before` holds after `child` is pushed as a
/// child under `name`.
pub open spec fn pushed_child(
    before: NodeView,
    name: Seq<char>,
    child: NodeView,
    omit_if_empty: bool,
) -> NodeView {
    if omit_if_empty && is_bare(built(child, name)) {
        before
    } else {
        NodeView { children: before.children.push(built(child, name)), ..before }
    }
}

/// What a builder that holds `before` holds after all that `part` holds is
/// moved into it.
pub open spec fn merged(before: NodeView, part: NodeView) -> NodeView {
    NodeView { entries: before.entries + part.entries, children: before.children + part.children }
}

/// What a builder holds after `ty` is set on its first entry.
pub open spec fn typed(before: NodeView, ty: Seq<char>) -> NodeView {
    if before.entries.len() > 0 {
        NodeView {
            entries: before.entries.update(0, EntryView { ty: Some(ty), ..before.entries[0] }),
            ..before
        }
    } else {
        before
    }
}

/// One more entry shows among the positional entries that carry a value if
/// it is one of them, and changes nothing there if it is not.
pub proof fn lemma_live_arguments_push(pending: Seq<EntryView>, e: EntryView)
    ensures
        live_arguments(pending.push(e)) == if e.name is None && !(e.value is Null) {
            live_arguments(pending).push(e)
        } else {
            live_arguments(pending)
        },
{
    tree::lemma_filter_push(pending, |e: EntryView| e.name is None && !(e.value is Null), e);
}

/// Whether `value` is the empty string.
pub fn is_empty_string(value: &tree::Value) -> (b: bool)
    ensures
        b == (value@ == tree::ValueView::String(Seq::empty())),
{
    match value {
        tree::Value::String(s) => {
            let b = s.as_str().is_empty();
            proof {
                if b {
                    assert(s@ =~= Seq::empty());
                }
            }
            b
        },
        _ => false,
    }
}

impl Node {
    /// Whether nothing was pushed that is still held.
    pub fn is_empty(&self) -> (b: bool)
        ensures
            b == (self@ == empty()),
    {
        proof {
            if self.entries@.len() == 0 && self.children@.len() == 0 {
                assert(self@.entries =~= Seq::empty());
                assert(self@.children =~= Seq::empty());
            } else {
                assert(self@.entries.len() == self.entries@.len());
                assert(self@.children.len() == self.children@.len());
                assert(empty().entries.len() == 0 && empty().children.len() == 0);
            }
        }
        self.entries.is_empty() && self.children.is_empty()
    }

    /// The children pushed so far, as a document.
    pub fn into_document(self) -> (doc: tree::Document)
        ensures
            doc == (tree::Document { nodes: self.children }),
            doc@ == self@.children,
    {
        tree::Document { nodes: self.children }
    }

    /// Appends an entry made of `value`, `name` and `ty`; with
    /// `omit_if_empty`, a null value or an empty string is left out.
    pub fn push_entry(
        &mut self,
        value: tree::Value,
        name: Option<&str>,
        ty: Option<&str>,
        omit_if_empty: bool,
    )
        ensures
            final(self)@ == pushed_entry(
                old(self)@,
                EntryView { name: tree::str_view(name), ty: tree::str_view(ty), value: value@ },
                omit_if_empty,
            ),
    {
        let mut entry = Entry::new(value);
        entry.set_name(name);
        match ty {
            Some(t) => entry.set_ty(t),
            None => {},
        }
        self.push_whole(entry, omit_if_empty);
    }

    /// Appends `entry`; with `omit_if_empty`, one whose value is null or an
    /// empty string is left out.
    pub fn push_whole(&mut self, entry: Entry, omit_if_empty: bool)
        ensures
            final(self)@ == pushed_entry(old(self)@, entry@, omit_if_empty),
    {
        if omit_if_empty && (entry.value.is_null() || is_empty_string(&entry.value)) {
            return ;
        }
        let ghost before = self@.entries;
        self.entries.push(entry);
        proof {
            assert(self@.entries =~= before.push(entry@));
        }
    }

    /// Finishes `child` under `name` and appends it as a child; with
    /// `omit_if_empty`, a child without entries and children is left out.
    pub fn push_child(&mut self, name: &str, child: Node, omit_if_empty: bool)
        ensures
            final(self)@ == pushed_child(old(self)@, name@, child@, omit_if_empty),
    {
        let node = child.build(name);
        self.push_built(BuiltNode::new(Some(node), omit_if_empty));
    }

    /// Appends the node that `built` gives, if it gives one.
    pub fn push_built(&mut self, built: BuiltNode)
        ensures
            final(self)@ == match built.kept() {
                Some(node) => NodeView { children: old(self)@.children.push(node), ..old(self)@ },
                None => old(self)@,
            },
    {
        match built.into_node() {
            Some(node) => {
                let ghost before = self@.children;
                self.children.push(node);
                proof {
                    assert(self@.children =~= before.push(node@));
                }
            },
            None => {},
        }
    }

    /// Applies `component` to the builder.
    pub fn push<C: NodeComponent>(&mut self, component: C)
        ensures
            component.applied(old(self)@, final(self)@),
    {
        component.apply_to(self);
    }

    /// The builder with `component` applied to it.
    pub fn with<C: NodeComponent>(self, component: C) -> (r: Self)
        ensures
            component.applied(self@, r@),
    {
        let mut r = self;
        r.push(component);
        r
    }

    /// Moves all that `part` holds to the end of what `self` holds.
    pub fn merge(&mut self, part: Node)
        ensures
            final(self)@ == merged(old(self)@, part@),
    {
        let ghost before = self@;
        let ghost added = part@;
        let mut part = part;
        self.entries.append(&mut part.entries);
        self.children.append(&mut part.children);
        proof {
            assert(self@.entries =~= before.entries + added.entries);
            assert(self@.children =~= before.children + added.children);
        }
    }

    /// Sets the type tag of the first entry pushed; without entries,
    /// nothing changes.
    pub fn with_type(self, ty: &str) -> (r: Self)
        ensures
            r@ == typed(self@, ty@),
    {
        let mut r = self;
        r.set_type(ty);
        r
    }

    /// Sets the type tag of the first entry pushed; without entries,
    /// nothing changes.
    pub fn set_type(&mut self, ty: &str)
        ensures
            final(self)@ == typed(old(self)@, ty@),
    {
        if self.entries.len() > 0 {
            let ghost before = self@.entries;
            let mut first = self.entries.remove(0);
            first.set_ty(ty);
            self.entries.insert(0, first);
            proof {
                assert(self@.entries =~= before.update(
                    0,
                    EntryView { ty: Some(ty@), ..before[0] },
                ));
            }
        }
    }

    /// Finishes the node under `name`: the positional entries that carry a
    /// value come first, the named entries follow, each group in the order
    /// of the pushes; the children follow in the order of the pushes.
    pub fn build(self, name: &str) -> (node: tree::Node)
        ensures
            node@ == built(self@, name@),
    {
        let ghost pending = self@.entries;
        let mut entries = self.entries;
        let children = self.children;
        let mut out: Vec<Entry> = Vec::new();
        out.reserve(entries.len());
        let ghost mut seen: int = 0;
        let mut i: usize = 0;
        proof {
            reveal(Seq::filter);
            assert(pending.take(0) =~= Seq::<EntryView>::empty());
            assert(pending.skip(0) =~= pending);
        }
        while i < entries.len()
            invariant
                0 <= seen <= pending.len(),
                i <= entries.len(),
                i == tree::properties(pending.take(seen)).len(),
                tree::entries_view(entries@) == tree::properties(pending.take(seen))
                    + pending.skip(seen),
                tree::entries_view(out@) == live_arguments(pending.take(seen)),
            decreases pending.len() - seen,
        {
            let ghost before = tree::entries_view(entries@);
            let ghost e = pending[seen];
            proof {
                assert(before[i as int] == e);
                assert(pending.take(seen + 1) =~= pending.take(seen).push(e));
                tree::lemma_filter_push(pending.take(seen), |e: EntryView| e.name is Some, e);
                lemma_live_arguments_push(pending.take(seen), e);
            }
            if entries[i].name.is_none() {
                let val = entries.remove(i);
                proof {
                    assert(val@ == e);
                    assert(tree::entries_view(entries@) =~= before.remove(i as int));
                    assert(before.remove(i as int) =~= tree::properties(pending.take(seen))
                        + pending.skip(seen + 1));
                }
                if !val.value.is_null() {
                    out.push(val);
                    proof {
                        assert(tree::entries_view(out@) =~= live_arguments(
                            pending.take(seen + 1),
                        ));
                    }
                }
            } else {
                proof {
                    assert(tree::entries_view(entries@) =~= tree::properties(pending.take(seen + 1))
                        + pending.skip(seen + 1));
                }
                i += 1;
            }
            proof {
                seen = seen + 1;
            }
        }
        proof {
            assert(seen == pending.len());
            assert(pending.take(seen) =~= pending);
        }
        out.append(&mut entries);
        proof {
            assert(tree::entries_view(out@) =~= ordered_entries(pending));
        }
        let doc = if children.is_empty() {
            None
        } else {
            Some(tree::Document { nodes: children })
        };
        let node = tree::Node { name: name.to_owned(), entries: out, children: doc };
        proof {
            tree::lemma_node_view(node);
        }
        node
    }
}

impl From<Node> for tree::Document {
    fn from(value: Node) -> (r: Self) {
        value.into_document()
    }
}

impl vstd::std_specs::convert::FromSpecImpl<Node> for tree::Document {
    open spec fn obeys_from_spec() -> bool {
        true
    }

    open spec fn from_spec(value: Node) -> Self {
        tree::Document { nodes: value.children }
    }
}

impl<T: NodeComponent> core::ops::Add<T> for Node {
    type Output = Node;

    fn add(self, component: T) -> (r: Node)
        ensures
            component.applied(self@, r@),
    {
        self.with(component)
    }
}

impl<T: NodeComponent> vstd::std_specs::ops::AddSpecImpl<T> for Node {
    open spec fn obeys_add_spec() -> bool {
        false
    }

    open spec fn add_req(self, component: T) -> bool {
        true
    }

    open spec fn add_spec(self, component: T) -> Node {
        self
    }
}

impl<T: NodeComponent> core::ops::AddAssign<T> for Node {
    fn add_assign(&mut self, component: T)
        ensures
            component.applied(old(self)@, final(self)@),
    {
        self.push(component);
    }
}

/// What can be applied to a builder: an entry, a child, or several of them.
pub trait NodeComponent: Sized {
    /// Whether a builder that held `before` may hold `after` once `self`
    /// is applied to it. A type that says nothing here promises nothing.
    open spec fn applied(self, before: NodeView, after: NodeView) -> bool {
        true
    }

    fn apply_to(self, builder: &mut Node)
        ensures
            self.applied(old(builder)@, final(builder)@),
    ;
}

/// What can be made into a builder of its own.
pub trait IntoNodeBuilder: Sized {
    /// Whether `node` may be what `self` is made into. A type that says
    /// nothing here promises nothing.
    open spec fn made(self, node: NodeView) -> bool {
        true
    }

    fn into_node(self) -> (node: Node)
        ensures
            self.made(node@),
    ;
}

/// Whether `after` is `before` with what `writer` is written as moved to
/// its end, the first entry of it tagged with `ty` where there is a `ty`.
pub open spec fn written_and_merged<V: AsKdlNode>(
    writer: V,
    ty: Option<Seq<char>>,
    before: NodeView,
    after: NodeView,
) -> bool {
    exists|plain: NodeView| #[trigger]
        writer.encodes(plain) && after == merged(before, tagged(plain, ty))
}

/// `plain` with `ty` set on its first entry, where there is a `ty`.
pub open spec fn tagged(plain: NodeView, ty: Option<Seq<char>>) -> NodeView {
    match ty {
        Some(ty) => typed(plain, ty),
        None => plain,
    }
}

/// A builder that holds one entry, unless the entry is left out.
pub open spec fn lone_entry(entry: EntryView, omit_if_empty: bool) -> NodeView {
    pushed_entry(empty(), entry, omit_if_empty)
}

/// Whether `after` is `before` with the entry that `maker` makes pushed.
pub open spec fn entry_pushed<V: IntoEntry>(
    maker: V,
    omit_if_empty: bool,
    before: NodeView,
    after: NodeView,
) -> bool {
    exists|entry: EntryView| #[trigger]
        maker.makes(entry) && after == pushed_entry(before, entry, omit_if_empty)
}

impl NodeComponent for tree::Node {
    open spec fn applied(self, before: NodeView, after: NodeView) -> bool {
        after == (NodeView { children: before.children.push(self@), ..before })
    }

    fn apply_to(self, builder: &mut Node) {
        builder.push_built(BuiltNode::new(Some(self), false));
    }
}

impl NodeComponent for Node {
    open spec fn applied(self, before: NodeView, after: NodeView) -> bool {
        after == merged(before, self@)
    }

    fn apply_to(self, builder: &mut Node) {
        builder.merge(self);
    }
}

impl<'a, V: AsKdlNode> NodeComponent for &'a V {
    open spec fn applied(self, before: NodeView, after: NodeView) -> bool {
        written_and_merged(self, None, before, after)
    }

    fn apply_to(self, builder: &mut Node) {
        let node = self.as_kdl();
        proof {
            assert(<&V as AsKdlNode>::encodes(&self, node@));
        }
        builder.merge(node);
    }
}

impl IntoNodeBuilder for Node {
    open spec fn made(self, node: NodeView) -> bool {
        node == self@
    }

    fn into_node(self) -> (node: Node) {
        self
    }
}

impl<'a, V: AsKdlNode> IntoNodeBuilder for &'a V {
    open spec fn made(self, node: NodeView) -> bool {
        self.encodes(node)
    }

    fn into_node(self) -> (node: Node) {
        self.as_kdl()
    }
}

impl<'a, V: AsKdlNode> IntoNodeBuilder for Option<&'a V> {
    open spec fn made(self, node: NodeView) -> bool {
        self.encodes(node)
    }

    fn into_node(self) -> (node: Node) {
        match self {
            None => Node::default(),
            Some(value) => value.as_kdl(),
        }
    }
}

impl IntoNodeBuilder for super::Entry {
    open spec fn made(self, node: NodeView) -> bool {
        node == lone_entry(self.entry@, false)
    }

    fn into_node(self) -> (node: Node) {
        Node::default().with(self)
    }
}

impl NodeComponent for super::Entry {
    open spec fn applied(self, before: NodeView, after: NodeView) -> bool {
        after == pushed_entry(before, self.entry@, false)
    }

    fn apply_to(self, builder: &mut Node) {
        builder.push_whole(self.entry, false);
    }
}

impl<V: IntoEntry> NodeComponent for OmitIfEmpty<V> {
    open spec fn applied(self, before: NodeView, after: NodeView) -> bool {
        entry_pushed(self.0, true, before, after)
    }

    fn apply_to(self, builder: &mut Node) {
        let entry_builder = self.0.into_entry();
        builder.push_whole(entry_builder.entry, true);
    }
}

impl<V: IntoEntry> IntoNodeBuilder for OmitIfEmpty<V> {
    open spec fn made(self, node: NodeView) -> bool {
        entry_pushed(self.0, true, empty(), node)
    }

    fn into_node(self) -> (node: Node) {
        Node::default().with(self)
    }
}

impl<'a, V: AsKdlNode> NodeComponent for OmitIfEmpty<&'a Option<V>> {
    open spec fn applied(self, before: NodeView, after: NodeView) -> bool {
        written_and_merged(self.0, None, before, after)
    }

    fn apply_to(self, builder: &mut Node) {
        let ghost before = builder@;
        let node = self.0.as_kdl();
        proof {
            assert(<&Option<V> as AsKdlNode>::encodes(&self.0, node@));
        }
        if !node.is_empty() {
            builder.merge(node);
        } else {
            proof {
                lemma_merge_nothing(before);
            }
        }
    }
}

/// Moving nothing into a builder leaves it as it is.
pub proof fn lemma_merge_nothing(before: NodeView)
    ensures
        merged(before, empty()) == before,
{
    assert(merged(before, empty()).entries =~= before.entries);
    assert(merged(before, empty()).children =~= before.children);
}

impl<'a, 'b, V: AsKdlNode> NodeComponent for OmitIfEmpty<Typed<'a, &'b Option<V>>> {
    open spec fn applied(self, before: NodeView, after: NodeView) -> bool {
        written_and_merged(self.0.1, Some(self.0.0@), before, after)
    }

    fn apply_to(self, builder: &mut Node) {
        let ghost before = builder@;
        let node = self.0.into_node();
        if !node.is_empty() {
            builder.merge(node);
        } else {
            proof {
                lemma_merge_nothing(before);
            }
        }
    }
}

impl<V, T> NodeComponent for OmitIfEqual<V, T> where
    V: InnerValue<Inner = T> + IntoEntry,
    T: PartialEq + AsKdlValue,
 {
    open spec fn applied(self, before: NodeView, after: NodeView) -> bool {
        &&& after == before || entry_pushed(self.0, false, before, after)
        &&& T::obeys_eq_spec() ==> if self.0.content().eq_spec(&self.1) {
            after == before
        } else {
            entry_pushed(self.0, false, before, after)
        }
    }

    fn apply_to(self, builder: &mut Node) {
        if *self.0.inner() != self.1 {
            let entry_builder = self.0.into_entry();
            entry_builder.apply_to(builder);
        }
    }
}

impl<V, T> IntoNodeBuilder for OmitIfEqual<V, T> where
    V: InnerValue<Inner = T> + IntoEntry,
    T: PartialEq + AsKdlValue,
 {
    open spec fn made(self, node: NodeView) -> bool {
        self.applied(empty(), node)
    }

    fn into_node(self) -> (node: Node) {
        Node::default().with(self)
    }
}

impl<V: AsKdlValue> IntoNodeBuilder for Value<V> {
    open spec fn made(self, node: NodeView) -> bool {
        entry_pushed(self, false, empty(), node)
    }

    fn into_node(self) -> (node: Node) {
        self.into_entry().into_node()
    }
}

impl<V: AsKdlValue> NodeComponent for Value<V> {
    open spec fn applied(self, before: NodeView, after: NodeView) -> bool {
        entry_pushed(self, false, before, after)
    }

    fn apply_to(self, builder: &mut Node) {
        self.into_entry().apply_to(builder);
    }
}

impl<'a> NodeComponent for &'a tree::Value {
    open spec fn applied(self, before: NodeView, after: NodeView) -> bool {
        after == pushed_entry(before, EntryView { name: None, ty: None, value: self@ }, false)
    }

    fn apply_to(self, builder: &mut Node) {
        builder.push_entry(self.clone(), None, None, false);
    }
}

impl<'a, V: AsKdlValue> IntoNodeBuilder for Typed<'a, Value<V>> {
    open spec fn made(self, node: NodeView) -> bool {
        entry_pushed(self, false, empty(), node)
    }

    fn into_node(self) -> (node: Node) {
        self.into_entry().into_node()
    }
}

impl<'a, V: AsKdlValue> NodeComponent for Typed<'a, Value<V>> {
    open spec fn applied(self, before: NodeView, after: NodeView) -> bool {
        entry_pushed(self, false, before, after)
    }

    fn apply_to(self, builder: &mut Node) {
        self.into_entry().apply_to(builder);
    }
}

impl<'a, V: AsKdlNode> NodeComponent for Typed<'a, V> {
    open spec fn applied(self, before: NodeView, after: NodeView) -> bool {
        written_and_merged(self.1, Some(self.0@), before, after)
    }

    fn apply_to(self, builder: &mut Node) {
        builder.merge(self.into_node());
    }
}

impl<'a, V: AsKdlNode> IntoNodeBuilder for Typed<'a, V> {
    open spec fn made(self, node: NodeView) -> bool {
        written_and_merged(self.1, Some(self.0@), empty(), node)
    }

    fn into_node(self) -> (node: Node) {
        let node = self.1.as_kdl().with_type(self.0);
        proof {
            assert(merged(empty(), node@).entries =~= node@.entries);
            assert(merged(empty(), node@).children =~= node@.children);
        }
        node
    }
}

impl<'a, V: IntoEntry> IntoNodeBuilder for Property<'a, V> {
    open spec fn made(self, node: NodeView) -> bool {
        entry_pushed(self, false, empty(), node)
    }

    fn into_node(self) -> (node: Node) {
        self.into_entry().into_node()
    }
}

impl<'a, V: IntoEntry> NodeComponent for Property<'a, V> {
    open spec fn applied(self, before: NodeView, after: NodeView) -> bool {
        entry_pushed(self, false, before, after)
    }

    fn apply_to(self, builder: &mut Node) {
        self.into_entry().apply_to(builder);
    }
}

/// What the second field makes, as a child under the name in the first.
pub struct Child<'a, V>(pub &'a str, pub V);

/// Whether `after` is `before` with one child more, made by `maker` and
/// finished under `name`, unless it is left out.
pub open spec fn child_pushed<V: IntoNodeBuilder>(
    maker: V,
    name: Seq<char>,
    omit_if_empty: bool,
    before: NodeView,
    after: NodeView,
) -> bool {
    exists|child: NodeView| #[trigger]
        maker.made(child) && after == pushed_child(before, name, child, omit_if_empty)
}

impl<'a, V: IntoNodeBuilder> NodeComponent for Child<'a, V> {
    open spec fn applied(self, before: NodeView, after: NodeView) -> bool {
        child_pushed(self.1, self.0@, false, before, after)
    }

    fn apply_to(self, builder: &mut Node) {
        let child = self.1.into_node();
        builder.push_child(self.0, child, false);
    }
}

impl<'a, V: IntoNodeBuilder> NodeComponent for OmitIfEmpty<Child<'a, V>> {
    open spec fn applied(self, before: NodeView, after: NodeView) -> bool {
        child_pushed(self.0.1, self.0.0@, true, before, after)
    }

    fn apply_to(self, builder: &mut Node) {
        let child = self.0.1.into_node();
        builder.push_child(self.0.0, child, true);
    }
}

/// What each of the items in the second field makes, as children under
/// the name in the first.
pub struct Children<'a, V>(pub &'a str, pub V);

/// The argument that a native value is written as.
pub open spec fn argument_of(value: tree::ValueView) -> EntryView {
    EntryView { name: None, ty: None, value }
}

/// The child named `name` whose one argument is `value`.
pub open spec fn value_child(value: tree::ValueView, name: Seq<char>) -> tree::NodeView {
    built(lone_entry(argument_of(value), false), name)
}

/// The children named `name` whose one argument each is one of `values`.
pub open spec fn value_children(values: Seq<tree::ValueView>, name: Seq<char>) -> Seq<
    tree::NodeView,
> {
    values.map_values(|v: tree::ValueView| value_child(v, name))
}

/// The values that are neither null nor the empty string.
pub open spec fn full_values(values: Seq<tree::ValueView>) -> Seq<tree::ValueView> {
    values.filter(|v: tree::ValueView| !is_empty_value(v))
}

/// Whether `values` may be what `items` are written as, one for one.
pub open spec fn all_encoded<T: AsKdlValue>(items: Seq<T>, values: Seq<tree::ValueView>) -> bool {
    &&& values.len() == items.len()
    &&& forall|i: int| 0 <= i < items.len() ==> encoded_at(items, values, i)
}

/// Whether the value at `i` may be what the item at `i` is written as.
pub open spec fn encoded_at<T: AsKdlValue>(
    items: Seq<T>,
    values: Seq<tree::ValueView>,
    i: int,
) -> bool {
    items[i].encodes(values[i])
}

/// Whether `after` is `before` with a child for each of `items`, or, with
/// `omit_if_empty`, for each that is neither null nor the empty string.
pub open spec fn value_children_pushed<T: AsKdlValue>(
    items: Seq<T>,
    name: Seq<char>,
    omit_if_empty: bool,
    before: NodeView,
    after: NodeView,
) -> bool {
    exists|values: Seq<tree::ValueView>| #[trigger]
        all_encoded(items, values) && after == (NodeView {
            children: before.children + value_children(
                if omit_if_empty {
                    full_values(values)
                } else {
                    values
                },
                name,
            ),
            ..before
        })
}

/// Whether `parts` may be what `items` are written as, one for one.
pub open spec fn all_written<T: AsKdlNode>(items: Seq<T>, parts: Seq<NodeView>) -> bool {
    &&& parts.len() == items.len()
    &&& forall|i: int| 0 <= i < items.len() ==> written_at(items, parts, i)
}

/// Whether the part at `i` may be what the item at `i` is written as.
pub open spec fn written_at<T: AsKdlNode>(items: Seq<T>, parts: Seq<NodeView>, i: int) -> bool {
    items[i].encodes(parts[i])
}

/// The children that `parts` become under `name`, one for one; with
/// `omit_if_empty`, without those that hold nothing.
pub open spec fn built_children(parts: Seq<NodeView>, name: Seq<char>, omit_if_empty: bool) -> Seq<
    tree::NodeView,
> {
    let all = parts.map_values(|p: NodeView| built(p, name));
    if omit_if_empty {
        all.filter(|n: tree::NodeView| !is_bare(n))
    } else {
        all
    }
}

/// Whether `after` is `before` with a child for each of `items`, or, with
/// `omit_if_empty`, for each that is written as more than nothing.
pub open spec fn node_children_pushed<T: AsKdlNode>(
    items: Seq<T>,
    name: Seq<char>,
    omit_if_empty: bool,
    before: NodeView,
    after: NodeView,
) -> bool {
    exists|parts: Seq<NodeView>| #[trigger]
        all_written(items, parts) && after == (NodeView {
            children: before.children + built_children(parts, name, omit_if_empty),
            ..before
        })
}

impl<'a, 'b, T: AsKdlNode> NodeComponent for Children<'a, &'b Vec<T>> {
    open spec fn applied(self, before: NodeView, after: NodeView) -> bool {
        node_children_pushed(self.1@, self.0@, false, before, after)
    }

    fn apply_to(self, builder: &mut Node) {
        push_node_children(builder, self.0, self.1, false);
    }
}

impl<'a, 'b, T: AsKdlNode> NodeComponent for OmitIfEmpty<Children<'a, &'b Vec<T>>> {
    open spec fn applied(self, before: NodeView, after: NodeView) -> bool {
        node_children_pushed(self.0.1@, self.0.0@, true, before, after)
    }

    fn apply_to(self, builder: &mut Node) {
        push_node_children(builder, self.0.0, self.0.1, true);
    }
}

/// Pushes what each of `items` is written as, as a child named `name`;
/// with `omit_if_empty`, a child without entries and children is left out.
pub fn push_node_children<T: AsKdlNode>(
    builder: &mut Node,
    name: &str,
    items: &Vec<T>,
    omit_if_empty: bool,
)
    ensures
        node_children_pushed(items@, name@, omit_if_empty, old(builder)@, final(builder)@),
{
    let ghost before = builder@;
    let ghost mut parts: Seq<NodeView> = Seq::empty();
    let ghost kept = |n: tree::NodeView| !is_bare(n);
    let mut i: usize = 0;
    proof {
        tree::lemma_filter_empty(kept);
        assert(parts.map_values(|p: NodeView| built(p, name@)) =~= Seq::empty());
        assert(before.children + built_children(parts, name@, omit_if_empty) =~= before.children);
    }
    while i < items.len()
        invariant
            i <= items@.len(),
            parts.len() == i,
            kept == (|n: tree::NodeView| !is_bare(n)),
            forall|j: int| 0 <= j < i ==> written_at(items@, parts, j),
            builder@ == (NodeView {
                children: before.children + built_children(parts, name@, omit_if_empty),
                ..before
            }),
        decreases items@.len() - i,
    {
        let ghost seen = parts;
        let child = items[i].as_kdl();
        proof {
            parts = seen.push(child@);
            let all = seen.map_values(|p: NodeView| built(p, name@));
            assert(parts.map_values(|p: NodeView| built(p, name@)) =~= all.push(
                built(child@, name@),
            ));
            tree::lemma_filter_push(all, kept, built(child@, name@));
            assert forall|j: int| 0 <= j < i + 1 implies written_at(items@, parts, j) by {
                if j < i {
                    assert(written_at(items@, seen, j));
                }
            }
        }
        builder.push_child(name, child, omit_if_empty);
        proof {
            assert(builder@.children =~= before.children + built_children(
                parts,
                name@,
                omit_if_empty,
            ));
        }
        i += 1;
    }
    proof {
        assert(all_written(items@, parts));
    }
}

impl<'a, 'b, T: AsKdlValue> NodeComponent for Children<'a, Value<&'b Vec<T>>> {
    open spec fn applied(self, before: NodeView, after: NodeView) -> bool {
        value_children_pushed(self.1.0@, self.0@, false, before, after)
    }

    fn apply_to(self, builder: &mut Node) {
        push_value_children(builder, self.0, self.1.0, false);
    }
}

impl<'a, 'b, T: AsKdlValue> NodeComponent for OmitIfEmpty<Children<'a, Value<&'b Vec<T>>>> {
    open spec fn applied(self, before: NodeView, after: NodeView) -> bool {
        value_children_pushed(self.0.1.0@, self.0.0@, true, before, after)
    }

    fn apply_to(self, builder: &mut Node) {
        push_value_children(builder, self.0.0, self.0.1.0, true);
    }
}

/// Pushes a child named `name` for each of `items`, its one argument the
/// item; with `omit_if_empty`, an item that is written as null or as the
/// empty string gets no child.
pub fn push_value_children<T: AsKdlValue>(
    builder: &mut Node,
    name: &str,
    items: &Vec<T>,
    omit_if_empty: bool,
)
    ensures
        value_children_pushed(items@, name@, omit_if_empty, old(builder)@, final(builder)@),
{
    let ghost before = builder@;
    let ghost mut values: Seq<tree::ValueView> = Seq::empty();
    let ghost full = |v: tree::ValueView| !is_empty_value(v);
    let mut i: usize = 0;
    proof {
        tree::lemma_filter_empty(full);
        assert(before.children + value_children(Seq::empty(), name@) =~= before.children);
    }
    while i < items.len()
        invariant
            i <= items@.len(),
            values.len() == i,
            full == (|v: tree::ValueView| !is_empty_value(v)),
            forall|j: int| 0 <= j < i ==> encoded_at(items@, values, j),
            builder@ == (NodeView {
                children: before.children + value_children(
                    if omit_if_empty {
                        full_values(values)
                    } else {
                        values
                    },
                    name@,
                ),
                ..before
            }),
        decreases items@.len() - i,
    {
        let ghost seen = values;
        let value = items[i].as_kdl();
        proof {
            values = seen.push(value@);
            tree::lemma_filter_push(seen, full, value@);
            assert forall|j: int| 0 <= j < i + 1 implies encoded_at(items@, values, j) by {
                if j < i {
                    assert(encoded_at(items@, seen, j));
                }
            }
        }
        let mut child = Node::default();
        child.push_entry(value, None, None, omit_if_empty);
        if !omit_if_empty || !child.is_empty() {
            proof {
                assert(child@ == lone_entry(argument_of(value@), false));
            }
            builder.push_child(name, child, false);
            proof {
                assert(builder@.children =~= before.children + value_children(
                    if omit_if_empty {
                        full_values(values)
                    } else {
                        values
                    },
                    name@,
                ));
            }
        } else {
            proof {
                assert(child@.entries.len() == 0);
                assert(is_empty_value(value@));
            }
        }
        i += 1;
    }
    proof {
        assert(all_encoded(items@, values));
    }
}

} // verus!
