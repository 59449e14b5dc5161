//! Reading a borrowed tree: a reader stands on one node, hands out its
//! arguments in order, finds its properties by name and opens readers on its
//! children.
use crate::convert::FromKdlValue;
use crate::error::{
    MissingEntry, MissingEntryType, MissingEntryView, MissingNodeDocument, NodeMissingChild,
    NodeMissingChildView, RequiredValue,
};
use crate::tree;
use crate::tree::{argument_at, property_named, Document, Entry, EntryView, NodeKeyView, NodeView};
use crate::FromKdlNode;
use vstd::prelude::*;

verus! {

/// A reader on one node of a borrowed tree.
pub struct Node<'doc, Context> {
    node: &'doc tree::Node,
    ctx: &'doc Context,
    is_child: bool,
    entry_cursor: usize,
}

/// What a reader is: the node it stands on, the context it carries, whether
/// it was opened on a child, and the position of the next argument.
pub struct NodeState<Context> {
    pub node: NodeView,
    pub ctx: Context,
    pub is_child: bool,
    pub cursor: usize,
}

impl<'doc, Context> View for Node<'doc, Context> {
    type V = NodeState<Context>;

    closed spec fn view(&self) -> NodeState<Context> {
        NodeState {
            node: self.node@,
            ctx: *self.ctx,
            is_child: self.is_child,
            cursor: self.entry_cursor,
        }
    }
}

impl<'doc, Context> Clone for Node<'doc, Context> {
    fn clone(&self) -> (r: Self)
        ensures
            r@ == self@,
    {
        Node {
            node: self.node,
            ctx: self.ctx,
            is_child: self.is_child,
            entry_cursor: self.entry_cursor,
        }
    }
}

/// The child nodes of `node`; none where it has no block of children.
pub open spec fn children_of(node: NodeView) -> Seq<NodeView> {
    match node.children {
        Some(nodes) => nodes,
        None => Seq::empty(),
    }
}

/// The nodes among `nodes` that are named `name`, in their order.
pub open spec fn nodes_named(nodes: Seq<NodeView>, name: Seq<char>) -> Seq<NodeView> {
    nodes.filter(|n: NodeView| n.name == name)
}

/// The reader that is opened on the child `node` of a reader with `ctx`.
pub open spec fn child_state<Context>(node: NodeView, ctx: Context) -> NodeState<Context> {
    NodeState { node, ctx, is_child: true, cursor: 0 }
}

/// What asking `node` for the argument at `cursor` gives.
pub open spec fn argument_or_missing(node: NodeView, cursor: usize) -> Result<
    EntryView,
    MissingEntryView,
> {
    match argument_at(node.entries, cursor as int) {
        Some(e) => Ok(e),
        None => Err(MissingEntryView { node, key: NodeKeyView::Index(cursor) }),
    }
}

/// What asking `node` for the property `key` gives.
pub open spec fn property_or_missing(node: NodeView, key: Seq<char>) -> Result<
    EntryView,
    MissingEntryView,
> {
    match property_named(node.entries, key) {
        Some(e) => Ok(e),
        None => Err(MissingEntryView { node, key: NodeKeyView::Key(key) }),
    }
}

/// What `peak` gives in the state `s`.
pub open spec fn peeked<Context>(s: NodeState<Context>) -> Result<EntryView, MissingEntryView> {
    argument_or_missing(s.node, s.cursor)
}

/// The state after one `next` in the state `s`.
pub open spec fn stepped<Context>(s: NodeState<Context>) -> NodeState<Context> {
    NodeState { cursor: (s.cursor + 1) as usize, ..s }
}

/// The state after `n` times `next` in the state `s`.
pub open spec fn stepped_by<Context>(s: NodeState<Context>, n: nat) -> NodeState<Context>
    decreases n,
{
    if n == 0 {
        s
    } else {
        stepped(stepped_by(s, (n - 1) as nat))
    }
}

/// `next` walks the arguments in order and never goes back: after `n`
/// calls the cursor has moved on by `n`, whether the calls found an
/// argument or not, and the call that follows gives what the node has at
/// that position. On a new reader the calls give the arguments at 0, 1, 2
/// and so on.
pub proof fn lemma_next_walks_forward<Context>(s: NodeState<Context>, n: nat)
    requires
        s.cursor + n <= usize::MAX,
    ensures
        stepped_by(s, n) == (NodeState { cursor: (s.cursor + n) as usize, ..s }),
        peeked(stepped_by(s, n)) == argument_or_missing(s.node, (s.cursor + n) as usize),
    decreases n,
{
    if n > 0 {
        lemma_next_walks_forward(s, (n - 1) as nat);
    }
}

/// The views of an entry that was found or of the error that says it is missing.
pub open spec fn lookup_view(r: Result<&Entry, MissingEntry>) -> Result<
    EntryView,
    MissingEntryView,
> {
    match r {
        Ok(e) => Ok(e@),
        Err(e) => Err(e@),
    }
}

impl<'doc, Context> Node<'doc, Context> {
    /// A reader on `node`, before its first argument.
    pub fn new(node: &'doc tree::Node, ctx: &'doc Context) -> (r: Self)
        ensures
            r@ == (NodeState { node: node@, ctx: *ctx, is_child: false, cursor: 0 }),
    {
        Node { node, ctx, is_child: false, entry_cursor: 0 }
    }

    /// The context that the reader carries.
    pub fn context(&self) -> (ctx: &Context)
        ensures
            *ctx == self@.ctx,
    {
        self.ctx
    }

    /// Whether the reader was opened on a child of another reader's node.
    pub fn is_child(&self) -> (b: bool)
        ensures
            b == self@.is_child,
    {
        self.is_child
    }

    /// The position of the next argument.
    pub fn cursor(&self) -> (c: usize)
        ensures
            c == self@.cursor,
    {
        self.entry_cursor
    }

    /// The node that the reader stands on.
    pub fn node(&self) -> (node: &'doc tree::Node)
        ensures
            node@ == self@.node,
    {
        self.node
    }

    /// The name of the node.
    pub fn name(&self) -> (name: &'doc str)
        ensures
            name@ == self@.node.name,
    {
        proof {
            tree::lemma_node_view(*self.node);
        }
        self.node.name.as_str()
    }

    /// All the entries of the node, arguments and properties, in their order.
    pub fn entries(&self) -> (entries: &'doc [Entry])
        ensures
            tree::entries_view(entries@) == self@.node.entries,
    {
        proof {
            tree::lemma_node_view(*self.node);
        }
        self.node.entries.as_slice()
    }

    /// The block of children of the node, or the error that says it has none.
    pub fn document(&self) -> (r: Result<&'doc Document, MissingNodeDocument>)
        ensures
            match self@.node.children {
                Some(nodes) => r is Ok && r->Ok_0@ == nodes,
                None => r is Err && r->Err_0@ == self@.node,
            },
    {
        proof {
            tree::lemma_node_view(*self.node);
        }
        match &self.node.children {
            Some(doc) => Ok(doc),
            None => Err(MissingNodeDocument { node: self.node.clone() }),
        }
    }

    /// Whether the node has a block of children with a node in it.
    pub fn has_children(&self) -> (b: bool)
        ensures
            b == (children_of(self@.node).len() > 0),
    {
        match self.document() {
            Ok(doc) => !doc.nodes.is_empty(),
            Err(_) => false,
        }
    }

    /// The argument at the cursor; the cursor stays.
    pub fn peak(&self) -> (r: Result<&'doc Entry, MissingEntry>)
        ensures
            lookup_view(r) == peeked(self@),
    {
        match self.node.entry_at(self.entry_cursor) {
            Some(entry) => Ok(entry),
            None => Err(MissingEntry::new_index(self.node, self.entry_cursor)),
        }
    }

    /// The argument at the cursor; the cursor moves on by one, also where
    /// the node has no argument there.
    pub fn next(&mut self) -> (r: Result<&'doc Entry, MissingEntry>)
        requires
            old(self)@.cursor < usize::MAX,
        ensures
            lookup_view(r) == peeked(old(self)@),
            final(self)@ == stepped(old(self)@),
    {
        let at = self.entry_cursor;
        self.entry_cursor = at + 1;
        match self.node.entry_at(at) {
            Some(entry) => Ok(entry),
            None => Err(MissingEntry::new_index(self.node, at)),
        }
    }

    /// The property named `key`; the cursor plays no part.
    pub fn prop(&self, key: &str) -> (r: Result<&'doc Entry, MissingEntry>)
        ensures
            lookup_view(r) == property_or_missing(self@.node, key@),
    {
        match self.node.entry_named(key) {
            Some(entry) => Ok(entry),
            None => Err(MissingEntry::new_prop(self.node, key)),
        }
    }

    /// Readers on all the children, in document order.
    pub fn iter_children(&self) -> (r: IterChildNodes<'doc, IterDocumentNodes<'doc>, Context>)
        ensures
            r.pending() == children_of(self@.node),
            r.context() == self@.ctx,
    {
        let iter_doc = match self.document() {
            Ok(doc) => Some(IterDocumentNodes::new(doc)),
            Err(_) => None,
        };
        IterChildNodes(iter_doc, self.ctx)
    }

    /// Readers on the children named `name`, in document order.
    pub fn children(&self, name: &str) -> (r: IterChildNodes<
        'doc,
        IterDocumentNodesWithName<'doc>,
        Context,
    >)
        ensures
            r.pending() == nodes_named(children_of(self@.node), name@),
            r.context() == self@.ctx,
    {
        let iter_doc = match self.document() {
            Ok(doc) => Some(IterDocumentNodesWithName::new(doc, name)),
            Err(_) => None,
        };
        proof {
            tree::lemma_filter_empty(|n: NodeView| n.name == name@);
        }
        IterChildNodes(iter_doc, self.ctx)
    }

    /// A reader on the first child named `key`, or the error that says
    /// there is none.
    pub fn child(&self, key: &str) -> (r: Result<Self, NodeMissingChild>)
        ensures
            match first_of(nodes_named(children_of(self@.node), key@)) {
                Some(node) => r is Ok && r->Ok_0@ == child_state(node, self@.ctx),
                None => r is Err && r->Err_0@ == (NodeMissingChildView {
                    node: self@.node,
                    child_name: key@,
                }),
            },
    {
        let mut iter = self.children(key);
        match iter.next() {
            Some(child) => Ok(child),
            None => Err(NodeMissingChild { node: self.node.clone(), child_name: key.to_owned() }),
        }
    }

    /// Hands the reader to the decode function of `T`.
    pub fn to<T: FromKdlNode<'doc, Context>>(&mut self) -> (r: Result<T, T::Error>)
        ensures
            T::decoded(old(self)@, final(self)@, r),
    {
        T::from_kdl(self)
    }

    /// Takes the next argument and decodes its value.
    pub fn decode_next<T: FromKdlValue<'doc>>(&mut self) -> (r: Result<T, RequiredValue<T::Error>>)
        requires
            old(self)@.cursor < usize::MAX,
        ensures
            required(peeked(old(self)@), r),
            final(self)@ == stepped(old(self)@),
    {
        match self.next() {
            Ok(entry) => match T::from_kdl(&entry.value) {
                Ok(v) => Ok(v),
                Err(e) => Err(RequiredValue::Parse(e)),
            },
            Err(missing) => Err(RequiredValue::Missing(missing)),
        }
    }

    /// Finds the property named `key` and decodes its value.
    pub fn decode_property<T: FromKdlValue<'doc>>(&self, key: &str) -> (r: Result<
        T,
        RequiredValue<T::Error>,
    >)
        ensures
            required(property_or_missing(self@.node, key@), r),
    {
        match self.prop(key) {
            Ok(entry) => match T::from_kdl(&entry.value) {
                Ok(v) => Ok(v),
                Err(e) => Err(RequiredValue::Parse(e)),
            },
            Err(missing) => Err(RequiredValue::Missing(missing)),
        }
    }
}

/// Whether `r` is what a required value gives for `lookup`: the error of
/// the lookup where the entry is missing, else what its value decodes to.
pub open spec fn required<'doc, T: FromKdlValue<'doc>>(
    lookup: Result<EntryView, MissingEntryView>,
    r: Result<T, RequiredValue<T::Error>>,
) -> bool {
    match lookup {
        Err(missing) => r matches Err(RequiredValue::Missing(e)) && e@ == missing,
        Ok(entry) => match r {
            Ok(v) => T::decoded(entry.value, Ok(v)),
            Err(RequiredValue::Parse(e)) => T::decoded(entry.value, Err(e)),
            Err(RequiredValue::Missing(_)) => false,
        },
    }
}

/// The first of `s`, if it has one.
pub open spec fn first_of<A>(s: Seq<A>) -> Option<A> {
    if s.len() > 0 {
        Some(s[0])
    } else {
        None
    }
}

/// What is left of `s` once its first is taken.
pub open spec fn rest_of<A>(s: Seq<A>) -> Seq<A> {
    if s.len() > 0 {
        s.skip(1)
    } else {
        s
    }
}

/// The view of a node that may be absent.
pub open spec fn node_opt_view(node: Option<&tree::Node>) -> Option<NodeView> {
    match node {
        Some(n) => Some(n@),
        None => None,
    }
}

/// Nodes of a borrowed tree, handed out one at a time and in order.
pub trait NodeSource<'doc> {
    /// The nodes that are still to come.
    spec fn remaining(&self) -> Seq<NodeView>;

    fn next_node(&mut self) -> (r: Option<&'doc tree::Node>)
        ensures
            node_opt_view(r) == first_of(old(self).remaining()),
            final(self).remaining() == rest_of(old(self).remaining()),
    ;
}

/// The nodes of a document, in document order.
pub struct IterDocumentNodes<'doc>(&'doc Document, usize);

impl<'doc> IterDocumentNodes<'doc> {
    #[verifier::type_invariant]
    spec fn in_bounds(self) -> bool {
        self.1 <= self.0.nodes@.len()
    }

    /// The nodes of `doc`, from the first.
    pub fn new(doc: &'doc Document) -> (r: Self)
        ensures
            r.remaining() == doc@,
    {
        let r = IterDocumentNodes(doc, 0);
        proof {
            assert(doc@.skip(0) =~= doc@);
        }
        r
    }

    /// The nodes of `doc`, if there is a document.
    pub fn opt(doc: Option<&'doc Document>) -> (r: Option<Self>)
        ensures
            match doc {
                Some(d) => r is Some && r->Some_0.remaining() == d@,
                None => r is None,
            },
    {
        match doc {
            Some(d) => Some(IterDocumentNodes::new(d)),
            None => None,
        }
    }

    /// The next node, if one is left.
    pub fn next(&mut self) -> (r: Option<&'doc tree::Node>)
        ensures
            node_opt_view(r) == first_of(old(self).remaining()),
            final(self).remaining() == rest_of(old(self).remaining()),
    {
        proof {
            use_type_invariant(&*self);
        }
        let doc = self.0;
        if self.1 < doc.nodes.len() {
            let node = &doc.nodes[self.1];
            proof {
                assert(doc@.skip(self.1 as int).skip(1) =~= doc@.skip(self.1 + 1));
            }
            self.1 = self.1 + 1;
            Some(node)
        } else {
            None
        }
    }
}

impl<'doc> NodeSource<'doc> for IterDocumentNodes<'doc> {
    closed spec fn remaining(&self) -> Seq<NodeView> {
        self.0@.skip(self.1 as int)
    }

    fn next_node(&mut self) -> (r: Option<&'doc tree::Node>) {
        self.next()
    }
}

/// The nodes of a document that bear one name, in document order.
pub struct IterDocumentNodesWithName<'doc>(IterDocumentNodes<'doc>, String);

/// The first item of `s` heads what the test keeps of `s`, or is left out.
pub proof fn lemma_filter_first<A>(s: Seq<A>, pred: spec_fn(A) -> bool)
    requires
        s.len() > 0,
    ensures
        s.filter(pred) == if pred(s[0]) {
            seq![s[0]] + s.skip(1).filter(pred)
        } else {
            s.skip(1).filter(pred)
        },
{
    assert(s =~= seq![s[0]] + s.skip(1));
    Seq::filter_distributes_over_add(seq![s[0]], s.skip(1), pred);
    tree::lemma_filter_empty(pred);
    tree::lemma_filter_push(Seq::<A>::empty(), pred, s[0]);
    assert(Seq::<A>::empty().push(s[0]) =~= seq![s[0]]);
    if !pred(s[0]) {
        assert(Seq::<A>::empty() + s.skip(1).filter(pred) =~= s.skip(1).filter(pred));
    }
}

impl<'doc> IterDocumentNodesWithName<'doc> {
    /// The nodes of `doc` that are named `name`, from the first.
    pub fn new(doc: &'doc Document, name: &str) -> (r: Self)
        ensures
            r.remaining() == nodes_named(doc@, name@),
    {
        IterDocumentNodesWithName(IterDocumentNodes::new(doc), name.to_owned())
    }

    /// The next node, if one is left.
    pub fn next(&mut self) -> (r: Option<&'doc tree::Node>)
        ensures
            node_opt_view(r) == first_of(old(self).remaining()),
            final(self).remaining() == rest_of(old(self).remaining()),
    {
        let ghost wanted = |n: NodeView| n.name == self.1@;
        loop
            invariant
                self.1 == old(self).1,
                wanted == (|n: NodeView| n.name == self.1@),
                self.0.remaining().filter(wanted) == old(self).0.remaining().filter(wanted),
            decreases self.0.remaining().len(),
        {
            let ghost before = self.0.remaining();
            match self.0.next() {
                Some(node) => {
                    proof {
                        tree::lemma_node_view(*node);
                        lemma_filter_first(before, wanted);
                    }
                    if node.name == self.1 {
                        proof {
                            let rest = before.skip(1).filter(wanted);
                            assert((seq![before[0]] + rest).skip(1) =~= rest);
                        }
                        return Some(node);
                    }
                },
                None => {
                    proof {
                        assert(before =~= Seq::empty());
                        tree::lemma_filter_empty(wanted);
                    }
                    return None;
                },
            }
        }
    }
}

impl<'doc> NodeSource<'doc> for IterDocumentNodesWithName<'doc> {
    closed spec fn remaining(&self) -> Seq<NodeView> {
        nodes_named(self.0.remaining(), self.1@)
    }

    fn next_node(&mut self) -> (r: Option<&'doc tree::Node>) {
        self.next()
    }
}

/// The view of a reader that may be absent.
pub open spec fn reader_opt_view<'doc, Context>(r: Option<Node<'doc, Context>>) -> Option<
    NodeState<Context>,
> {
    match r {
        Some(n) => Some(n@),
        None => None,
    }
}

/// Readers on child nodes, handed out one at a time and in order.
pub struct IterChildNodes<'doc, Iter, Context>(Option<Iter>, &'doc Context);

impl<'doc, Iter: NodeSource<'doc>, Context> IterChildNodes<'doc, Iter, Context> {
    /// The nodes that readers are still to be opened on.
    pub closed spec fn pending(&self) -> Seq<NodeView> {
        match self.0 {
            Some(iter) => iter.remaining(),
            None => Seq::empty(),
        }
    }

    /// The context that every reader is given.
    pub closed spec fn context(&self) -> Context {
        *self.1
    }

    /// A reader on the next child, if one is left.
    pub fn next(&mut self) -> (r: Option<Node<'doc, Context>>)
        ensures
            reader_opt_view(r) == match first_of(old(self).pending()) {
                Some(node) => Some(child_state(node, old(self).context())),
                None => None,
            },
            final(self).pending() == rest_of(old(self).pending()),
            final(self).context() == old(self).context(),
    {
        let ctx = self.1;
        match &mut self.0 {
            Some(iter_doc) => match iter_doc.next_node() {
                Some(node) => Some(Node { node, ctx, is_child: true, entry_cursor: 0 }),
                None => None,
            },
            None => None,
        }
    }

    /// The first argument of each child.
    pub fn value(self) -> (r: IterNodeFirstValue<'doc, Iter, Context>)
        ensures
            r.lookups() == first_arguments(self.pending()),
    {
        IterNodeFirstValue(self)
    }

    /// The property named `key` of each child.
    pub fn prop(self, key: &str) -> (r: IterNodePropValue<'doc, Iter, Context>)
        ensures
            r.lookups() == properties_named(self.pending(), key@),
    {
        IterNodePropValue(self, key.to_owned())
    }

    /// Each child, decoded as a `T`.
    pub fn to<T: FromKdlNode<'doc, Context>>(self) -> (r: IterNodeTyped<'doc, Iter, Context, T>)
        ensures
            r.pending() == self.pending(),
            r.context() == self.context(),
    {
        IterNodeTyped(self, core::marker::PhantomData)
    }
}

/// What asking each of `nodes` for its first argument gives.
pub open spec fn first_arguments(nodes: Seq<NodeView>) -> Seq<Result<EntryView, MissingEntryView>> {
    nodes.map_values(|n: NodeView| argument_or_missing(n, 0))
}

/// What asking each of `nodes` for its property `key` gives.
pub open spec fn properties_named(nodes: Seq<NodeView>, key: Seq<char>) -> Seq<
    Result<EntryView, MissingEntryView>,
> {
    nodes.map_values(|n: NodeView| property_or_missing(n, key))
}

/// The view of a lookup that may be absent.
pub open spec fn lookup_opt_view(r: Option<Result<&Entry, MissingEntry>>) -> Option<
    Result<EntryView, MissingEntryView>,
> {
    match r {
        Some(l) => Some(lookup_view(l)),
        None => None,
    }
}

/// Lookups of one entry in each of a run of nodes, handed out one at a time.
pub trait EntrySource<'doc> {
    /// The lookups that are still to come.
    spec fn lookups(&self) -> Seq<Result<EntryView, MissingEntryView>>;

    fn next_entry(&mut self) -> (r: Option<Result<&'doc Entry, MissingEntry>>)
        ensures
            lookup_opt_view(r) == first_of(old(self).lookups()),
            final(self).lookups() == rest_of(old(self).lookups()),
    ;
}

/// The first argument of each of a run of child nodes.
pub struct IterNodeFirstValue<'doc, Iter, Context>(IterChildNodes<'doc, Iter, Context>);

impl<'doc, Iter: NodeSource<'doc>, Context> IterNodeFirstValue<'doc, Iter, Context> {
    /// The lookup in the next child, if one is left.
    pub fn next(&mut self) -> (r: Option<Result<&'doc Entry, MissingEntry>>)
        ensures
            lookup_opt_view(r) == first_of(old(self).lookups()),
            final(self).lookups() == rest_of(old(self).lookups()),
    {
        let ghost before = self.0.pending();
        match self.0.next() {
            Some(mut node) => {
                proof {
                    assert(first_arguments(before).skip(1) =~= first_arguments(before.skip(1)));
                }
                Some(node.next())
            },
            None => None,
        }
    }

    /// Each first argument, decoded as a `T`.
    pub fn to<T: FromKdlValue<'doc>>(self) -> (r: IterNodeValueTyped<Self, T>)
        ensures
            r.lookups() == self.lookups(),
    {
        IterNodeValueTyped(self, core::marker::PhantomData)
    }
}

impl<'doc, Iter: NodeSource<'doc>, Context> EntrySource<'doc> for IterNodeFirstValue<
    'doc,
    Iter,
    Context,
> {
    closed spec fn lookups(&self) -> Seq<Result<EntryView, MissingEntryView>> {
        first_arguments(self.0.pending())
    }

    fn next_entry(&mut self) -> (r: Option<Result<&'doc Entry, MissingEntry>>) {
        self.next()
    }
}

/// The property of one name of each of a run of child nodes.
pub struct IterNodePropValue<'doc, Iter, Context>(IterChildNodes<'doc, Iter, Context>, String);

impl<'doc, Iter: NodeSource<'doc>, Context> IterNodePropValue<'doc, Iter, Context> {
    /// The lookup in the next child, if one is left.
    pub fn next(&mut self) -> (r: Option<Result<&'doc Entry, MissingEntry>>)
        ensures
            lookup_opt_view(r) == first_of(old(self).lookups()),
            final(self).lookups() == rest_of(old(self).lookups()),
    {
        let ghost before = self.0.pending();
        match self.0.next() {
            Some(node) => {
                proof {
                    assert(properties_named(before, self.1@).skip(1) =~= properties_named(
                        before.skip(1),
                        self.1@,
                    ));
                }
                Some(node.prop(self.1.as_str()))
            },
            None => None,
        }
    }

    /// Each property, decoded as a `T`.
    pub fn to<T: FromKdlValue<'doc>>(self) -> (r: IterNodeValueTyped<Self, T>)
        ensures
            r.lookups() == self.lookups(),
    {
        IterNodeValueTyped(self, core::marker::PhantomData)
    }
}

impl<'doc, Iter: NodeSource<'doc>, Context> EntrySource<'doc> for IterNodePropValue<
    'doc,
    Iter,
    Context,
> {
    closed spec fn lookups(&self) -> Seq<Result<EntryView, MissingEntryView>> {
        properties_named(self.0.pending(), self.1@)
    }

    fn next_entry(&mut self) -> (r: Option<Result<&'doc Entry, MissingEntry>>) {
        self.next()
    }
}

/// The values of a run of entries, each decoded as a `T`.
pub struct IterNodeValueTyped<Iter, T>(Iter, core::marker::PhantomData<T>);

/// Children, each decoded as a `T`.
pub struct IterNodeTyped<'doc, Iter, Context, T>(
    IterChildNodes<'doc, Iter, Context>,
    core::marker::PhantomData<T>,
);

/// Whether `r` is the step of a typed run whose next lookup is `lookup`: the
/// end where there is none, the error where the entry is missing, else what
/// its value decodes to.
pub open spec fn typed_step<'doc, T: FromKdlValue<'doc>>(
    lookup: Option<Result<EntryView, MissingEntryView>>,
    r: Option<Result<Result<T, T::Error>, MissingEntry>>,
) -> bool {
    match lookup {
        None => r is None,
        Some(Err(missing)) => r matches Some(Err(e)) && e@ == missing,
        Some(Ok(entry)) => r matches Some(Ok(d)) && T::decoded(entry.value, d),
    }
}

/// The first of `lookups` that found no entry.
pub open spec fn first_missing(lookups: Seq<Result<EntryView, MissingEntryView>>) -> Option<
    MissingEntryView,
>
    decreases lookups.len(),
{
    if lookups.len() == 0 {
        None
    } else {
        match lookups[0] {
            Err(missing) => Some(missing),
            Ok(_) => first_missing(lookups.skip(1)),
        }
    }
}

/// Every lookup found its entry, and `values` are what the entries decode
/// to, one for one.
pub open spec fn decodes_all<'doc, T: FromKdlValue<'doc>>(
    lookups: Seq<Result<EntryView, MissingEntryView>>,
    values: Seq<T>,
) -> bool {
    &&& values.len() == lookups.len()
    &&& forall|i: int| 0 <= i < lookups.len() ==> decodes_at::<T>(lookups, values, i)
}

/// The lookup at `i` found its entry, and the value at `i` is what the
/// entry decodes to.
pub open spec fn decodes_at<'doc, T: FromKdlValue<'doc>>(
    lookups: Seq<Result<EntryView, MissingEntryView>>,
    values: Seq<T>,
    i: int,
) -> bool {
    lookups[i] is Ok && T::decoded(lookups[i]->Ok_0.value, Ok(values[i]))
}

/// A run that decodes still does with one more entry that decodes.
pub proof fn lemma_decodes_push<'doc, T: FromKdlValue<'doc>>(
    lookups: Seq<Result<EntryView, MissingEntryView>>,
    values: Seq<T>,
    entry: EntryView,
    v: T,
)
    requires
        decodes_all::<T>(lookups, values),
        T::decoded(entry.value, Ok(v)),
    ensures
        decodes_all::<T>(lookups.push(Ok(entry)), values.push(v)),
{
    let now = lookups.push(Ok(entry));
    let vals = values.push(v);
    assert forall|i: int| 0 <= i < now.len() implies decodes_at::<T>(now, vals, i) by {
        if i < lookups.len() {
            assert(decodes_at::<T>(lookups, values, i));
        }
    }
}

/// `e` is what the entry at `at` fails to decode with, and the entries
/// before it decode.
pub open spec fn fails_first_at<'doc, T: FromKdlValue<'doc>>(
    lookups: Seq<Result<EntryView, MissingEntryView>>,
    at: int,
    before: Seq<T>,
    e: T::Error,
) -> bool {
    &&& 0 <= at < lookups.len()
    &&& decodes_all::<T>(lookups.take(at), before)
    &&& lookups[at] is Ok
    &&& T::decoded(lookups[at]->Ok_0.value, Err(e))
}

/// `e` is what the first entry that does not decode fails with.
pub open spec fn fails_first<'doc, T: FromKdlValue<'doc>>(
    lookups: Seq<Result<EntryView, MissingEntryView>>,
    e: T::Error,
) -> bool {
    exists|at: int, before: Seq<T>| #[trigger] fails_first_at::<T>(lookups, at, before, e)
}

/// Whether `r` is what collecting a typed run over `lookups` gives: the
/// first missing entry, whatever the values before it decode to; else the
/// first failure to decode; else all the values.
pub open spec fn collected<'doc, T: FromKdlValue<'doc>>(
    lookups: Seq<Result<EntryView, MissingEntryView>>,
    r: Result<Result<Vec<T>, T::Error>, MissingEntry>,
) -> bool {
    match first_missing(lookups) {
        Some(missing) => r matches Err(e) && e@ == missing,
        None => r is Ok && match r->Ok_0 {
            Ok(values) => decodes_all::<T>(lookups, values@),
            Err(e) => fails_first::<T>(lookups, e),
        },
    }
}

/// Where no entry is missing and one fails to decode, collecting gives the
/// failure.
proof fn lemma_collected_failure<'doc, T: FromKdlValue<'doc>>(
    lookups: Seq<Result<EntryView, MissingEntryView>>,
    at: int,
    before: Seq<T>,
    e: T::Error,
)
    requires
        first_missing(lookups) is None,
        fails_first_at::<T>(lookups, at, before, e),
    ensures
        collected::<T>(lookups, Ok(Err(e))),
{
}

impl<'doc, Iter: EntrySource<'doc>, T: FromKdlValue<'doc>> IterNodeValueTyped<Iter, T> {
    /// The lookups that are still to come.
    pub closed spec fn lookups(&self) -> Seq<Result<EntryView, MissingEntryView>> {
        self.0.lookups()
    }

    /// The lookup in the next child, if one is left, with the value of the
    /// entry it found decoded.
    pub fn next(&mut self) -> (r: Option<Result<Result<T, T::Error>, MissingEntry>>)
        ensures
            typed_step::<T>(first_of(old(self).lookups()), r),
            final(self).lookups() == rest_of(old(self).lookups()),
    {
        match self.0.next_entry() {
            None => None,
            Some(Err(missing)) => Some(Err(missing)),
            Some(Ok(entry)) => Some(Ok(T::from_kdl(&entry.value))),
        }
    }

    /// Runs to the end and gathers the values.
    pub fn collect(self) -> (r: Result<Result<Vec<T>, T::Error>, MissingEntry>)
        ensures
            collected::<T>(self.lookups(), r),
    {
        let ghost all = self.lookups();
        let mut source = self.0;
        let mut values: Vec<T> = Vec::new();
        let mut failed: Option<T::Error> = None;
        let ghost mut seen: int = 0;
        let ghost mut failed_at: int = 0;
        proof {
            assert(all.skip(0) =~= all);
        }
        loop
            invariant
                all == self.lookups(),
                0 <= seen <= all.len(),
                source.lookups() == all.skip(seen),
                first_missing(all) == first_missing(all.skip(seen)),
                failed is None ==> decodes_all::<T>(all.take(seen), values@),
                failed is Some ==> failed_at < seen && fails_first_at::<T>(
                    all,
                    failed_at,
                    values@,
                    failed->Some_0,
                ),
            decreases all.len() - seen,
        {
            match source.next_entry() {
                None => {
                    proof {
                        assert(all.skip(seen).len() == 0);
                        assert(all.take(seen) =~= all);
                        assert(first_missing(all) is None);
                    }
                    match failed {
                        Some(e) => {
                            proof {
                                lemma_collected_failure::<T>(all, failed_at, values@, e);
                            }
                            return Ok(Err(e));
                        },
                        None => {
                            return Ok(Ok(values));
                        },
                    }
                },
                Some(Err(missing)) => {
                    return Err(missing);
                },
                Some(Ok(entry)) => {
                    proof {
                        assert(all.skip(seen).skip(1) =~= all.skip(seen + 1));
                        assert(all.take(seen + 1) =~= all.take(seen).push(all[seen]));
                    }
                    let ghost found = values@;
                    match T::from_kdl(&entry.value) {
                        Ok(v) => {
                            if failed.is_none() {
                                values.push(v);
                                proof {
                                    lemma_decodes_push::<T>(all.take(seen), found, entry@, v);
                                }
                            }
                        },
                        Err(e) => {
                            if failed.is_none() {
                                proof {
                                    failed_at = seen;
                                }
                                failed = Some(e);
                            }
                        },
                    }
                    proof {
                        seen = seen + 1;
                    }
                },
            }
        }
    }
}

/// Whether `result` may be what the decode function of `T` hands back for
/// a reader in the state `state`.
pub open spec fn reader_decoded<'doc, Context, T: FromKdlNode<'doc, Context>>(
    state: NodeState<Context>,
    result: Result<T, T::Error>,
) -> bool {
    exists|after: NodeState<Context>| #[trigger] T::decoded(state, after, result)
}

/// Whether `result` may be what the decode function of `T` hands back for
/// a new reader on the child `node`.
pub open spec fn child_decoded<'doc, Context, T: FromKdlNode<'doc, Context>>(
    node: NodeView,
    ctx: Context,
    result: Result<T, T::Error>,
) -> bool {
    reader_decoded::<Context, T>(child_state(node, ctx), result)
}

/// Whether the value at `i` may be what the child at `i` decodes to.
pub open spec fn child_decoded_at<'doc, Context, T: FromKdlNode<'doc, Context>>(
    nodes: Seq<NodeView>,
    ctx: Context,
    values: Seq<T>,
    i: int,
) -> bool {
    child_decoded::<Context, T>(nodes[i], ctx, Ok(values[i]))
}

/// Whether `values` may be what the first children of `nodes` decode to,
/// one for one.
pub open spec fn children_decoded<'doc, Context, T: FromKdlNode<'doc, Context>>(
    nodes: Seq<NodeView>,
    ctx: Context,
    values: Seq<T>,
) -> bool {
    &&& values.len() <= nodes.len()
    &&& forall|i: int| 0 <= i < values.len() ==> child_decoded_at::<Context, T>(nodes, ctx, values, i)
}

/// Whether `r` may be what decoding the children `nodes` in order gives:
/// all the values, or the failure of the first child that fails.
pub open spec fn children_collected<'doc, Context, T: FromKdlNode<'doc, Context>>(
    nodes: Seq<NodeView>,
    ctx: Context,
    r: Result<Vec<T>, T::Error>,
) -> bool {
    match r {
        Ok(values) => values@.len() == nodes.len() && children_decoded::<Context, T>(
            nodes,
            ctx,
            values@,
        ),
        Err(e) => exists|before: Seq<T>| #[trigger]
            children_decoded::<Context, T>(nodes, ctx, before) && before.len() < nodes.len()
                && child_decoded::<Context, T>(nodes[before.len() as int], ctx, Err(e)),
    }
}

impl<'doc, Iter: NodeSource<'doc>, Context, T: FromKdlNode<'doc, Context>> IterNodeTyped<
    'doc,
    Iter,
    Context,
    T,
> {
    /// The nodes that are still to be decoded.
    pub closed spec fn pending(&self) -> Seq<NodeView> {
        self.0.pending()
    }

    /// The context that every reader is given.
    pub closed spec fn context(&self) -> Context {
        self.0.context()
    }

    /// Opens a reader on the next child and hands it to the decode function
    /// of `T`.
    pub fn next(&mut self) -> (r: Option<Result<T, T::Error>>)
        ensures
            match first_of(old(self).pending()) {
                Some(node) => r is Some && child_decoded::<Context, T>(
                    node,
                    old(self).context(),
                    r->Some_0,
                ),
                None => r is None,
            },
            final(self).pending() == rest_of(old(self).pending()),
            final(self).context() == old(self).context(),
    {
        match self.0.next() {
            Some(mut node) => Some(T::from_kdl(&mut node)),
            None => None,
        }
    }

    /// Decodes the children in order, up to the first that fails.
    pub fn collect(self) -> (r: Result<Vec<T>, T::Error>)
        ensures
            children_collected::<Context, T>(self.pending(), self.context(), r),
    {
        let ghost all = self.pending();
        let ghost ctx = self.context();
        let mut source = self.0;
        let mut values: Vec<T> = Vec::new();
        proof {
            assert(all.skip(0) =~= all);
        }
        loop
            invariant
                all == self.pending(),
                ctx == self.context(),
                ctx == source.context(),
                values@.len() <= all.len(),
                source.pending() == all.skip(values@.len() as int),
                children_decoded::<Context, T>(all, ctx, values@),
            decreases all.len() - values@.len(),
        {
            let ghost found = values@;
            match source.next() {
                Some(mut node) => {
                    proof {
                        assert(all.skip(found.len() as int).skip(1) =~= all.skip(
                            found.len() as int + 1,
                        ));
                    }
                    match T::from_kdl(&mut node) {
                        Ok(v) => {
                            values.push(v);
                            proof {
                                assert forall|i: int| 0 <= i < values@.len() implies child_decoded_at::<
                                    Context,
                                    T,
                                >(all, ctx, values@, i) by {
                                    if i < found.len() {
                                        assert(child_decoded_at::<Context, T>(all, ctx, found, i));
                                    }
                                }
                            }
                        },
                        Err(e) => {
                            proof {
                                assert(child_decoded::<Context, T>(
                                    all[found.len() as int],
                                    ctx,
                                    Err(e),
                                ));
                            }
                            return Err(e);
                        },
                    }
                },
                None => {
                    return Ok(values);
                },
            }
        }
    }
}

/// What an entry offers to a decode function.
pub trait EntryExt<'doc> {
    /// The type tag of the entry, or the error that says it has none.
    fn typed(&'doc self) -> (r: Result<&'doc str, MissingEntryType>)
        ensures
            match self.tag() {
                Some(ty) => r is Ok && r->Ok_0@ == ty,
                None => r is Err && r->Err_0@ == self.shown(),
            },
    ;

    /// The value of the entry, decoded as a `T`.
    fn to<T: FromKdlValue<'doc>>(&'doc self) -> (r: Result<T, T::Error>)
        ensures
            T::decoded(self.shown().value, r),
    ;

    /// The entry itself.
    spec fn shown(&self) -> EntryView;

    /// The type tag of the entry.
    spec fn tag(&self) -> Option<Seq<char>>;
}

impl<'doc> EntryExt<'doc> for Entry {
    open spec fn shown(&self) -> EntryView {
        self@
    }

    open spec fn tag(&self) -> Option<Seq<char>> {
        self@.ty
    }

    fn typed(&'doc self) -> (r: Result<&'doc str, MissingEntryType>) {
        match &self.ty {
            Some(ty) => Ok(ty.as_str()),
            None => Err(MissingEntryType { value: self.clone() }),
        }
    }

    fn to<T: FromKdlValue<'doc>>(&'doc self) -> (r: Result<T, T::Error>) {
        T::from_kdl(&self.value)
    }
}

/// What an entry that may be absent offers to a decode function.
pub trait EntryOptExt<'doc> {
    /// The entry, if there is one.
    spec fn held(&self) -> Option<EntryView>;

    /// The value of the entry decoded as a `T`, or nothing where there is
    /// no entry.
    fn to<T: FromKdlValue<'doc>>(&self) -> (r: Result<Option<T>, T::Error>)
        ensures
            match self.held() {
                None => r matches Ok(None),
                Some(entry) => match r {
                    Ok(Some(v)) => T::decoded(entry.value, Ok(v)),
                    Ok(None) => false,
                    Err(e) => T::decoded(entry.value, Err(e)),
                },
            },
    ;
}

impl<'doc> EntryOptExt<'doc> for Option<&'doc Entry> {
    open spec fn held(&self) -> Option<EntryView> {
        tree::entry_opt_view(*self)
    }

    fn to<T: FromKdlValue<'doc>>(&self) -> (r: Result<Option<T>, T::Error>) {
        match self {
            None => Ok(None),
            Some(entry) => match T::from_kdl(&entry.value) {
                Ok(v) => Ok(Some(v)),
                Err(e) => Err(e),
            },
        }
    }
}

/// What a reader that may be absent offers to a decode function.
pub trait NodeOptExt<'doc>: Sized {
    type Context;

    /// The reader, if there is one.
    spec fn held(&self) -> Option<NodeState<Self::Context>>;

    /// The next argument of the node, or nothing where there is no reader.
    fn next(self) -> (r: Result<Option<&'doc Entry>, MissingEntry>)
        requires
            self.held() matches Some(state) ==> state.cursor < usize::MAX,
        ensures
            match self.held() {
                None => r matches Ok(None),
                Some(state) => match argument_or_missing(state.node, state.cursor) {
                    Ok(entry) => r matches Ok(Some(e)) && e@ == entry,
                    Err(missing) => r matches Err(e) && e@ == missing,
                },
            },
    ;

    /// The property `key` of the node, or nothing where there is no reader.
    fn prop(self, key: &str) -> (r: Result<Option<&'doc Entry>, MissingEntry>)
        ensures
            match self.held() {
                None => r matches Ok(None),
                Some(state) => match property_or_missing(state.node, key@) {
                    Ok(entry) => r matches Ok(Some(e)) && e@ == entry,
                    Err(missing) => r matches Err(e) && e@ == missing,
                },
            },
    ;

    /// The node decoded as a `T`, or nothing where there is no reader.
    fn to<T: FromKdlNode<'doc, Self::Context>>(self) -> (r: Result<Option<T>, T::Error>)
        ensures
            match self.held() {
                None => r matches Ok(None),
                Some(state) => match r {
                    Ok(Some(v)) => reader_decoded::<Self::Context, T>(state, Ok(v)),
                    Ok(None) => false,
                    Err(e) => reader_decoded::<Self::Context, T>(state, Err(e)),
                },
            },
    ;
}

impl<'doc, Context> NodeOptExt<'doc> for Option<Node<'doc, Context>> {
    type Context = Context;

    open spec fn held(&self) -> Option<NodeState<Context>> {
        reader_opt_view(*self)
    }

    fn next(self) -> (r: Result<Option<&'doc Entry>, MissingEntry>) {
        match self {
            None => Ok(None),
            Some(mut node) => match node.next() {
                Ok(entry) => Ok(Some(entry)),
                Err(e) => Err(e),
            },
        }
    }

    fn prop(self, key: &str) -> (r: Result<Option<&'doc Entry>, MissingEntry>) {
        match self {
            None => Ok(None),
            Some(node) => match node.prop(key) {
                Ok(entry) => Ok(Some(entry)),
                Err(e) => Err(e),
            },
        }
    }

    fn to<T: FromKdlNode<'doc, Context>>(self) -> (r: Result<Option<T>, T::Error>) {
        match self {
            None => Ok(None),
            Some(mut node) => match T::from_kdl(&mut node) {
                Ok(v) => Ok(Some(v)),
                Err(e) => Err(e),
            },
        }
    }
}

/// The nodes of a document, all of them or those of one name.
pub trait DocumentExt {
    /// The nodes of the document.
    spec fn listed(&self) -> Seq<NodeView>;

    fn iter_children<'doc>(&'doc self) -> (r: IterDocumentNodes<'doc>)
        ensures
            r.remaining() == self.listed(),
    ;

    fn children<'doc>(&'doc self, name: &str) -> (r: IterDocumentNodesWithName<'doc>)
        ensures
            r.remaining() == nodes_named(self.listed(), name@),
    ;

    /// The first node named `key`.
    fn child<'doc>(&'doc self, key: &str) -> (r: Option<&'doc tree::Node>)
        ensures
            node_opt_view(r) == first_of(nodes_named(self.listed(), key@)),
    ;
}

impl DocumentExt for Document {
    open spec fn listed(&self) -> Seq<NodeView> {
        self@
    }

    fn iter_children<'doc>(&'doc self) -> (r: IterDocumentNodes<'doc>) {
        IterDocumentNodes::new(self)
    }

    fn children<'doc>(&'doc self, name: &str) -> (r: IterDocumentNodesWithName<'doc>) {
        IterDocumentNodesWithName::new(self, name)
    }

    fn child<'doc>(&'doc self, key: &str) -> (r: Option<&'doc tree::Node>) {
        let mut iter = IterDocumentNodesWithName::new(self, key);
        iter.next()
    }
}

} // verus!
