//! The attributed tree that readers walk and builders produce: nodes with
//! ordered entries and an optional block of child nodes.
use vstd::prelude::*;

verus! {

/// The value of an entry. A float is held by its IEEE 754 binary64 bit pattern.
#[derive(Debug, PartialEq, Eq)]
pub enum Value {
    String(String),
    Integer(i128),
    Float(u64),
    Bool(bool),
    Null,
}

/// What a value is: its kind, and the text, number or truth it holds.
pub enum ValueView {
    String(Seq<char>),
    Integer(i128),
    Float(u64),
    Bool(bool),
    Null,
}

impl View for Value {
    type V = ValueView;

    open spec fn view(&self) -> ValueView {
        match self {
            Value::String(s) => ValueView::String(s@),
            Value::Integer(i) => ValueView::Integer(*i),
            Value::Float(bits) => ValueView::Float(*bits),
            Value::Bool(b) => ValueView::Bool(*b),
            Value::Null => ValueView::Null,
        }
    }
}

impl Clone for Value {
    fn clone(&self) -> (r: Self)
        ensures
            r@ == self@,
    {
        match self {
            Value::String(s) => Value::String(s.clone()),
            Value::Integer(i) => Value::Integer(*i),
            Value::Float(bits) => Value::Float(*bits),
            Value::Bool(b) => Value::Bool(*b),
            Value::Null => Value::Null,
        }
    }
}

impl Value {
    /// Whether the value is null.
    pub fn is_null(&self) -> (b: bool)
        ensures
            b == (self@ is Null),
    {
        match self {
            Value::Null => true,
            _ => false,
        }
    }
}

/// An argument (no name) or a property (named) of a node.
#[derive(Debug, PartialEq, Eq)]
pub struct Entry {
    pub name: Option<String>,
    pub ty: Option<String>,
    pub value: Value,
}

/// What an entry is: its name if it is a property, its type tag if it has
/// one, and its value.
pub struct EntryView {
    pub name: Option<Seq<char>>,
    pub ty: Option<Seq<char>>,
    pub value: ValueView,
}

/// The view of a string that may be absent.
pub open spec fn text_view(s: Option<String>) -> Option<Seq<char>> {
    match s {
        Some(s) => Some(s@),
        None => None,
    }
}

impl View for Entry {
    type V = EntryView;

    open spec fn view(&self) -> EntryView {
        EntryView { name: text_view(self.name), ty: text_view(self.ty), value: self.value@ }
    }
}

/// A copy of a string that may be absent.
pub fn clone_text(text: &Option<String>) -> (r: Option<String>)
    ensures
        r == *text,
{
    match text {
        Some(s) => Some(s.clone()),
        None => None,
    }
}

impl Clone for Entry {
    fn clone(&self) -> (r: Self)
        ensures
            r@ == self@,
    {
        Entry { name: clone_text(&self.name), ty: clone_text(&self.ty), value: self.value.clone() }
    }
}

impl Entry {
    /// An argument that holds `value`.
    pub fn new(value: Value) -> (e: Entry)
        ensures
            e@ == (EntryView { name: None, ty: None, value: value@ }),
    {
        Entry { name: None, ty: None, value }
    }

    /// A property `key` that holds `value`.
    pub fn new_prop(key: &str, value: Value) -> (e: Entry)
        ensures
            e@ == (EntryView { name: Some(key@), ty: None, value: value@ }),
    {
        Entry { name: Some(key.to_owned()), ty: None, value }
    }

    /// Sets the type tag.
    pub fn set_ty(&mut self, ty: &str)
        ensures
            final(self)@ == (EntryView { ty: Some(ty@), ..old(self)@ }),
    {
        self.ty = Some(ty.to_owned());
    }

    /// Sets the name, or takes it away.
    pub fn set_name(&mut self, name: Option<&str>)
        ensures
            final(self)@ == (EntryView { name: str_view(name), ..old(self)@ }),
    {
        self.name = match name {
            Some(n) => Some(n.to_owned()),
            None => None,
        };
    }

    /// Sets the value.
    pub fn set_value(&mut self, value: Value)
        ensures
            final(self)@ == (EntryView { value: value@, ..old(self)@ }),
    {
        self.value = value;
    }
}

/// The view of a string slice that may be absent.
pub open spec fn str_view(s: Option<&str>) -> Option<Seq<char>> {
    match s {
        Some(s) => Some(s@),
        None => None,
    }
}

/// The view of an entry that may be absent.
pub open spec fn entry_opt_view(entry: Option<&Entry>) -> Option<EntryView> {
    match entry {
        Some(e) => Some(e@),
        None => None,
    }
}

/// A named unit: its entries in document order, and its block of child
/// nodes if it has one.
#[derive(Debug, PartialEq, Eq)]
pub struct Node {
    pub name: String,
    pub entries: Vec<Entry>,
    pub children: Option<Document>,
}

/// An ordered list of nodes; names may repeat.
#[derive(Debug, PartialEq, Eq)]
pub struct Document {
    pub nodes: Vec<Node>,
}

/// What a node is: its name, its entries in order, and its children in
/// order if it has a block of them.
pub struct NodeView {
    pub name: Seq<char>,
    pub entries: Seq<EntryView>,
    pub children: Option<Seq<NodeView>>,
}

/// The views of `entries`, one for one.
pub open spec fn entries_view(entries: Seq<Entry>) -> Seq<EntryView> {
    entries.map_values(|e: Entry| e@)
}

/// What `node` is, all the way down.
pub open spec fn node_view(node: Node) -> NodeView
    decreases node,
{
    NodeView {
        name: node.name@,
        entries: entries_view(node.entries@),
        children: match node.children {
            Some(doc) => Some(
                Seq::new(
                    doc.nodes@.len(),
                    |i: int|
                        if 0 <= i < doc.nodes@.len() {
                            node_view(doc.nodes@[i])
                        } else {
                            arbitrary()
                        },
                ),
            ),
            None => None,
        },
    }
}

impl View for Node {
    type V = NodeView;

    open spec fn view(&self) -> NodeView {
        node_view(*self)
    }
}

/// The views of `nodes`, one for one.
pub open spec fn nodes_view(nodes: Seq<Node>) -> Seq<NodeView> {
    nodes.map_values(|n: Node| n@)
}

impl View for Document {
    type V = Seq<NodeView>;

    open spec fn view(&self) -> Seq<NodeView> {
        nodes_view(self.nodes@)
    }
}

/// The view of a node that may be absent.
pub open spec fn node_view_opt(node: Option<Node>) -> Option<NodeView> {
    match node {
        Some(n) => Some(n@),
        None => None,
    }
}

/// The view of a document that may be absent.
pub open spec fn document_opt_view(doc: Option<Document>) -> Option<Seq<NodeView>> {
    match doc {
        Some(d) => Some(d@),
        None => None,
    }
}

/// The view of a node, field by field.
pub proof fn lemma_node_view(node: Node)
    ensures
        node@.name == node.name@,
        node@.entries == entries_view(node.entries@),
        node@.children == document_opt_view(node.children),
{
    match node.children {
        Some(doc) => {
            assert(node@.children->Some_0 =~= doc@);
        },
        None => {},
    }
}

/// How an entry of a node is asked for: an argument by its position among
/// the arguments, a property by its name.
#[derive(Debug, PartialEq, Eq)]
pub enum NodeKey {
    Index(usize),
    Key(String),
}

/// What a key is: a position among the arguments, or the name of a
/// property.
pub enum NodeKeyView {
    Index(usize),
    Key(Seq<char>),
}

impl View for NodeKey {
    type V = NodeKeyView;

    open spec fn view(&self) -> NodeKeyView {
        match self {
            NodeKey::Index(i) => NodeKeyView::Index(*i),
            NodeKey::Key(k) => NodeKeyView::Key(k@),
        }
    }
}

impl Clone for NodeKey {
    fn clone(&self) -> (r: Self)
        ensures
            r@ == self@,
    {
        match self {
            NodeKey::Index(i) => NodeKey::Index(*i),
            NodeKey::Key(k) => NodeKey::Key(k.clone()),
        }
    }
}

/// The positional entries among `entries`, in their order.
pub open spec fn arguments(entries: Seq<EntryView>) -> Seq<EntryView> {
    entries.filter(|e: EntryView| e.name is None)
}

/// The named entries among `entries`, in their order.
pub open spec fn properties(entries: Seq<EntryView>) -> Seq<EntryView> {
    entries.filter(|e: EntryView| e.name is Some)
}

/// The entries among `entries` that are named `key`, in their order.
pub open spec fn named(entries: Seq<EntryView>, key: Seq<char>) -> Seq<EntryView> {
    entries.filter(|e: EntryView| e.name == Some(key))
}

/// The argument at position `idx` among the arguments.
pub open spec fn argument_at(entries: Seq<EntryView>, idx: int) -> Option<EntryView> {
    if 0 <= idx < arguments(entries).len() {
        Some(arguments(entries)[idx])
    } else {
        None
    }
}

/// The property named `key`; of several, the one that comes last.
pub open spec fn property_named(entries: Seq<EntryView>, key: Seq<char>) -> Option<EntryView> {
    if named(entries, key).len() > 0 {
        Some(named(entries, key).last())
    } else {
        None
    }
}

/// The entry that `key` asks for.
pub open spec fn entry_for(entries: Seq<EntryView>, key: NodeKeyView) -> Option<EntryView> {
    match key {
        NodeKeyView::Index(idx) => argument_at(entries, idx as int),
        NodeKeyView::Key(name) => property_named(entries, name),
    }
}

/// One more item shows in what a test keeps if it passes the test, and
/// changes nothing there if it does not.
pub proof fn lemma_filter_push<A>(s: Seq<A>, pred: spec_fn(A) -> bool, a: A)
    ensures
        s.push(a).filter(pred) == if pred(a) {
            s.filter(pred).push(a)
        } else {
            s.filter(pred)
        },
{
    reveal(Seq::filter);
    assert(s.push(a).drop_last() =~= s);
}

/// A test keeps nothing of nothing.
pub proof fn lemma_filter_empty<A>(pred: spec_fn(A) -> bool)
    ensures
        Seq::<A>::empty().filter(pred) == Seq::<A>::empty(),
{
    reveal(Seq::filter);
}

/// Filtering by `pred` and then by `then` keeps what both keep.
pub proof fn lemma_filter_twice<A>(s: Seq<A>, pred: spec_fn(A) -> bool, then: spec_fn(A) -> bool)
    ensures
        s.filter(pred).filter(then) == s.filter(|a: A| pred(a) && then(a)),
    decreases s.len(),
{
    let both = |a: A| pred(a) && then(a);
    if s.len() == 0 {
        lemma_filter_empty(pred);
        lemma_filter_empty(then);
        lemma_filter_empty(both);
        assert(s =~= Seq::empty());
    } else {
        let front = s.drop_last();
        let a = s.last();
        assert(s =~= front.push(a));
        lemma_filter_twice(front, pred, then);
        lemma_filter_push(front, pred, a);
        lemma_filter_push(front, both, a);
        if pred(a) {
            lemma_filter_push(front.filter(pred), then, a);
        }
    }
}

/// Two tests that agree on every item of `s` keep the same items.
pub proof fn lemma_filter_agree<A>(s: Seq<A>, pred: spec_fn(A) -> bool, other: spec_fn(A) -> bool)
    requires
        forall|i: int| 0 <= i < s.len() ==> pred(#[trigger] s[i]) == other(s[i]),
    ensures
        s.filter(pred) == s.filter(other),
    decreases s.len(),
{
    if s.len() == 0 {
        lemma_filter_empty(pred);
        lemma_filter_empty(other);
        assert(s =~= Seq::empty());
    } else {
        let front = s.drop_last();
        let a = s.last();
        assert(s =~= front.push(a));
        assert forall|i: int| 0 <= i < front.len() implies pred(#[trigger] front[i]) == other(
            front[i],
        ) by {
            assert(front[i] == s[i]);
        }
        lemma_filter_agree(front, pred, other);
        lemma_filter_push(front, pred, a);
        lemma_filter_push(front, other, a);
        assert(a == s[s.len() - 1]);
    }
}

/// A test that no item of `s` passes keeps nothing.
pub proof fn lemma_filter_none<A>(s: Seq<A>, pred: spec_fn(A) -> bool)
    requires
        forall|i: int| 0 <= i < s.len() ==> !pred(#[trigger] s[i]),
    ensures
        s.filter(pred) == Seq::<A>::empty(),
{
    let never = |a: A| false;
    lemma_filter_agree(s, pred, never);
    assert(s.filter(never) =~= Seq::<A>::empty()) by {
        s.lemma_filter_len(never);
        if s.filter(never).len() > 0 {
            s.lemma_filter_pred(never, 0);
        }
    }
}

/// A test that every item of `s` passes keeps everything.
pub proof fn lemma_filter_all<A>(s: Seq<A>, pred: spec_fn(A) -> bool)
    requires
        forall|i: int| 0 <= i < s.len() ==> pred(#[trigger] s[i]),
    ensures
        s.filter(pred) == s,
    decreases s.len(),
{
    if s.len() == 0 {
        lemma_filter_empty(pred);
        assert(s =~= Seq::empty());
    } else {
        let front = s.drop_last();
        let a = s.last();
        assert(s =~= front.push(a));
        assert forall|i: int| 0 <= i < front.len() implies pred(#[trigger] front[i]) by {
            assert(front[i] == s[i]);
        }
        lemma_filter_all(front, pred);
        lemma_filter_push(front, pred, a);
        assert(a == s[s.len() - 1]);
    }
}

/// A filtered prefix is a prefix of the filtered whole.
pub proof fn lemma_filter_prefix<A>(s: Seq<A>, pred: spec_fn(A) -> bool, n: int)
    requires
        0 <= n <= s.len(),
    ensures
        s.take(n).filter(pred).len() <= s.filter(pred).len(),
        s.take(n).filter(pred) == s.filter(pred).take(s.take(n).filter(pred).len() as int),
{
    assert(s =~= s.take(n) + s.skip(n));
    Seq::filter_distributes_over_add(s.take(n), s.skip(n), pred);
    assert(s.take(n).filter(pred) =~= (s.take(n).filter(pred) + s.skip(n).filter(pred)).take(
        s.take(n).filter(pred).len() as int,
    ));
}

impl Node {
    /// A node named `name`, with no entries and no block of children.
    pub fn new(name: &str) -> (node: Node)
        ensures
            node@ == (NodeView { name: name@, entries: Seq::empty(), children: None }),
    {
        let node = Node { name: name.to_owned(), entries: Vec::new(), children: None };
        proof {
            lemma_node_view(node);
            assert(entries_view(node.entries@) =~= Seq::empty());
        }
        node
    }

    /// The argument at position `idx` among the arguments.
    pub fn entry_at(&self, idx: usize) -> (r: Option<&Entry>)
        ensures
            entry_opt_view(r) == argument_at(self@.entries, idx as int),
    {
        let ghost all = entries_view(self.entries@);
        proof {
            lemma_node_view(*self);
            lemma_filter_empty(|e: EntryView| e.name is None);
            assert(all.take(0) =~= Seq::empty());
        }
        let mut current: usize = 0;
        let mut j: usize = 0;
        while j < self.entries.len()
            invariant
                j <= self.entries.len(),
                all == entries_view(self.entries@),
                all == self@.entries,
                current == arguments(all.take(j as int)).len(),
                current <= idx,
                current <= j,
            decreases self.entries.len() - j,
        {
            let entry = &self.entries[j];
            proof {
                assert(all.take(j + 1) =~= all.take(j as int).push(entry@));
                lemma_filter_push(all.take(j as int), |e: EntryView| e.name is None, entry@);
                lemma_filter_prefix(all, |e: EntryView| e.name is None, j + 1);
            }
            if entry.name.is_none() {
                if current == idx {
                    proof {
                        let seen = arguments(all.take(j + 1));
                        assert(seen[idx as int] == entry@);
                        assert(seen == arguments(all).take(seen.len() as int));
                        assert(arguments(all)[idx as int] == entry@);
                    }
                    return Some(entry);
                }
                current += 1;
            }
            j += 1;
        }
        proof {
            assert(all.take(j as int) =~= all);
        }
        None
    }

    /// The property named `key`; of several, the one that comes last.
    pub fn entry_named(&self, key: &str) -> (r: Option<&Entry>)
        ensures
            entry_opt_view(r) == property_named(self@.entries, key@),
    {
        let ghost all = entries_view(self.entries@);
        let ghost pred = |e: EntryView| e.name == Some(key@);
        proof {
            lemma_node_view(*self);
            lemma_filter_empty(pred);
            assert(all.take(0) =~= Seq::empty());
        }
        let wanted = key.to_owned();
        let mut current: Option<&Entry> = None;
        let mut j: usize = 0;
        while j < self.entries.len()
            invariant
                j <= self.entries.len(),
                all == entries_view(self.entries@),
                all == self@.entries,
                wanted@ == key@,
                pred == (|e: EntryView| e.name == Some(key@)),
                entry_opt_view(current) == property_named(all.take(j as int), key@),
            decreases self.entries.len() - j,
        {
            let entry = &self.entries[j];
            proof {
                assert(all.take(j + 1) =~= all.take(j as int).push(entry@));
                lemma_filter_push(all.take(j as int), pred, entry@);
            }
            match &entry.name {
                Some(name) => {
                    if *name == wanted {
                        current = Some(entry);
                    }
                },
                None => {},
            }
            j += 1;
        }
        proof {
            assert(all.take(j as int) =~= all);
        }
        current
    }

    /// The entry that `key` asks for.
    pub fn entry(&self, key: &NodeKey) -> (r: Option<&Entry>)
        ensures
            entry_opt_view(r) == entry_for(self@.entries, key@),
    {
        match key {
            NodeKey::Index(idx) => self.entry_at(*idx),
            NodeKey::Key(name) => self.entry_named(name.as_str()),
        }
    }
}

/// A copy of `entries`.
pub fn clone_entries(entries: &Vec<Entry>) -> (r: Vec<Entry>)
    ensures
        entries_view(r@) == entries_view(entries@),
{
    let mut out: Vec<Entry> = Vec::new();
    let mut i: usize = 0;
    while i < entries.len()
        invariant
            i <= entries.len(),
            entries_view(out@) == entries_view(entries@).take(i as int),
        decreases entries.len() - i,
    {
        let ghost before = entries_view(out@);
        let entry = entries[i].clone();
        out.push(entry);
        proof {
            assert(entries_view(out@) =~= before.push(entries[i as int]@));
            assert(before.push(entries[i as int]@) =~= entries_view(entries@).take(i + 1));
        }
        i += 1;
    }
    proof {
        assert(entries_view(entries@).take(i as int) =~= entries_view(entries@));
    }
    out
}

/// A copy of `node`, all the way down.
pub fn clone_node(node: &Node) -> (r: Node)
    ensures
        r@ == node@,
    decreases node,
{
    let children = match &node.children {
        Some(doc) => Some(Document { nodes: clone_nodes(&doc.nodes) }),
        None => None,
    };
    let r = Node { name: node.name.clone(), entries: clone_entries(&node.entries), children };
    proof {
        lemma_node_view(r);
        lemma_node_view(*node);
    }
    r
}

/// A copy of `nodes`, all the way down.
pub fn clone_nodes(nodes: &Vec<Node>) -> (r: Vec<Node>)
    ensures
        nodes_view(r@) == nodes_view(nodes@),
    decreases nodes,
{
    let mut out: Vec<Node> = Vec::new();
    let mut i: usize = 0;
    while i < nodes.len()
        invariant
            i <= nodes.len(),
            nodes_view(out@) == nodes_view(nodes@).take(i as int),
        decreases nodes.len() - i,
    {
        let ghost before = nodes_view(out@);
        let node = clone_node(&nodes[i]);
        out.push(node);
        proof {
            assert(nodes_view(out@) =~= before.push(nodes[i as int]@));
            assert(before.push(nodes[i as int]@) =~= nodes_view(nodes@).take(i + 1));
        }
        i += 1;
    }
    proof {
        assert(nodes_view(nodes@).take(i as int) =~= nodes_view(nodes@));
    }
    out
}

impl Clone for Node {
    fn clone(&self) -> (r: Self)
        ensures
            r@ == self@,
    {
        clone_node(self)
    }
}

impl Clone for Document {
    fn clone(&self) -> (r: Self)
        ensures
            r@ == self@,
    {
        Document { nodes: clone_nodes(&self.nodes) }
    }
}

} // verus!
