use kdlize::error::{
    MissingEntry, MissingEntryType, MissingNodeDocument, NodeMissingChild, QueryError,
    RequiredValue, ValueTypeMismatch,
};
use kdlize::reader::{DocumentExt, EntryExt, EntryOptExt, IterDocumentNodes, Node, NodeOptExt};
use kdlize::tree;
use kdlize::tree::NodeKey;
use kdlize::{FloatBits, FromKdlNode};

fn arg(value: tree::Value) -> tree::Entry {
    tree::Entry::new(value)
}

fn text(s: &str) -> tree::Value {
    tree::Value::String(s.to_string())
}

fn empty() -> tree::Node {
    tree::Node::new("empty")
}

fn node() -> tree::Node {
    let mut node = tree::Node::new("node");
    node.entries.push(arg(tree::Value::Integer(42)));
    node.entries.push({
        let mut entry = arg(tree::Value::Bool(false));
        entry.set_ty("FlagName");
        entry
    });
    node.entries.push(arg(text("hello")));
    node.entries.push(tree::Entry::new_prop("some_key", tree::Value::Float(3.0f64.to_bits())));
    node.children = Some({
        let mut doc = tree::Document { nodes: Vec::new() };
        doc.nodes.push({
            let mut node = tree::Node::new("child1");
            node.entries.push(arg(tree::Value::Integer(42)));
            node.entries.push({
                let mut entry = arg(text("StrValue"));
                entry.set_ty("CustomType");
                entry
            });
            node
        });
        doc.nodes.push(empty());
        doc.nodes.push({
            let mut node = tree::Node::new("child2");
            node.entries.push(arg(text("ValueA")));
            node.entries.push(tree::Entry::new_prop("flag", tree::Value::Bool(true)));
            node
        });
        doc.nodes.push({
            let mut node = tree::Node::new("child2");
            node.entries.push(arg(text("ValueB")));
            node.entries.push(tree::Entry::new_prop("flag", tree::Value::Bool(false)));
            node
        });
        doc
    });
    node
}

#[test]
fn peak_value() -> Result<(), QueryError> {
    let node = node();
    let reader = Node::new(&node, &());
    assert_eq!(reader.peak()?.to::<u32>()?, 42);
    assert_eq!(reader.cursor(), 0);
    Ok(())
}

#[test]
fn next_typed() -> Result<(), QueryError> {
    let node = node();
    let mut reader = Node::new(&node, &());
    let _ = reader.next();
    assert_eq!(
        (reader.peak()?.typed()?, &reader.peak()?.value),
        ("FlagName", &tree::Value::Bool(false))
    );
    assert_eq!(reader.cursor(), 1);
    Ok(())
}

#[test]
fn next_value() -> Result<(), QueryError> {
    let node = node();
    let mut reader = Node::new(&node, &());
    assert_eq!(reader.next()?.to::<u32>()?, 42);
    assert_eq!(reader.next()?.to::<bool>()?, false);
    assert_eq!(reader.next()?.to::<String>()?, "hello");
    Ok(())
}

#[test]
fn property_value() -> Result<(), QueryError> {
    let node = node();
    let reader = Node::new(&node, &());
    let bits = reader.prop("some_key")?.to::<FloatBits>()?;
    assert_eq!(f64::from_bits(bits.0) as f32, 3.0);
    Ok(())
}

#[test]
fn child_node() -> Result<(), QueryError> {
    let node = node();
    let reader = Node::new(&node, &());
    let value = reader.child("child1")?;
    let expected = {
        let mut node = tree::Node::new("child1");
        node.entries.push(arg(tree::Value::Integer(42)));
        node.entries.push({
            let mut entry = arg(text("StrValue"));
            entry.set_ty("CustomType");
            entry
        });
        node
    };
    assert_eq!(value.node(), &expected);
    Ok(())
}

#[test]
fn child_next_value() -> Result<(), QueryError> {
    let node = node();
    let reader = Node::new(&node, &());
    let value = reader.child("child1")?.next()?.to::<u32>()?;
    assert_eq!(value, 42);
    Ok(())
}

#[test]
fn child_all() {
    let node = node();
    let reader = Node::new(&node, &());
    let mut iter = reader.children("child2");
    assert_eq!(
        iter.next().map(|reader| reader.node()),
        Some(&{
            let mut node = tree::Node::new("child2");
            node.entries.push(arg(text("ValueA")));
            node.entries.push(tree::Entry::new_prop("flag", tree::Value::Bool(true)));
            node
        })
    );
    assert_eq!(
        iter.next().map(|reader| reader.node()),
        Some(&{
            let mut node = tree::Node::new("child2");
            node.entries.push(arg(text("ValueB")));
            node.entries.push(tree::Entry::new_prop("flag", tree::Value::Bool(false)));
            node
        })
    );
    assert_eq!(iter.next().map(|reader| reader.node()), None);
}

#[derive(PartialEq, Debug)]
struct Number {
    value: u32,
}

impl<'doc> FromKdlNode<'doc, ()> for Number {
    type Error = QueryError;

    fn from_kdl(node: &mut Node<'doc, ()>) -> Result<Self, Self::Error> {
        let value = node.next()?.to::<u32>()?;
        Ok(Self { value })
    }
}

#[test]
fn child_fromnode() -> Result<(), QueryError> {
    let node = node();
    let reader = Node::new(&node, &());
    let value = reader.child("child1")?.to::<Number>()?;
    assert_eq!(value, Number { value: 42 });
    Ok(())
}

#[derive(PartialEq, Debug)]
struct Flagged {
    string: String,
    flag: bool,
}

impl<'doc> FromKdlNode<'doc, ()> for Flagged {
    type Error = QueryError;

    fn from_kdl(node: &mut Node<'doc, ()>) -> Result<Self, Self::Error> {
        let string = node.next()?.to::<String>()?;
        let flag = node.prop("flag")?.to::<bool>()?;
        Ok(Self { string, flag })
    }
}

#[test]
fn child_all_fromnode() -> Result<(), QueryError> {
    let node = node();
    let reader = Node::new(&node, &());
    let mut iter = reader.children("child2").to::<Flagged>();
    assert_eq!(iter.next(), Some(Ok(Flagged { string: "ValueA".into(), flag: true })));
    assert_eq!(iter.next(), Some(Ok(Flagged { string: "ValueB".into(), flag: false })));
    assert_eq!(iter.next(), None);
    Ok(())
}

fn scenario() -> tree::Node {
    let mut node = tree::Node::new("node");
    node.entries.push(arg(tree::Value::Integer(42)));
    node.entries.push({
        let mut entry = arg(tree::Value::Bool(false));
        entry.set_ty("Flag");
        entry
    });
    node.entries.push(arg(text("hello")));
    node.entries.push(tree::Entry::new_prop("some_key", tree::Value::Float(3.0f64.to_bits())));
    node
}

#[test]
fn arguments_and_property_decode_in_turn() {
    let node = scenario();
    let mut reader = Node::new(&node, &());
    assert_eq!(reader.decode_next::<u32>(), Ok(42));
    assert_eq!(reader.decode_next::<bool>(), Ok(false));
    assert_eq!(reader.decode_next::<String>(), Ok("hello".to_string()));
    let bits = reader.decode_property::<FloatBits>("some_key").unwrap();
    assert_eq!(f64::from_bits(bits.0), 3.0);
}

#[test]
fn peak_gives_the_same_every_time() {
    let node = scenario();
    let mut reader = Node::new(&node, &());
    for _ in 0..5 {
        assert_eq!(reader.peak(), Ok(&node.entries[0]));
        assert_eq!(reader.cursor(), 0);
    }
    for _ in 0..3 {
        let _ = reader.next();
    }
    let missing = MissingEntry { node: node.clone(), key: NodeKey::Index(3) };
    for _ in 0..5 {
        assert_eq!(reader.peak(), Err(missing.clone()));
        assert_eq!(reader.cursor(), 3);
    }
}

#[test]
fn next_gives_the_arguments_in_order() {
    let node = scenario();
    let mut reader = Node::new(&node, &());
    for i in 0..3 {
        assert_eq!(reader.next(), Ok(&node.entries[i]));
        assert_eq!(reader.cursor(), i + 1);
    }
}

#[test]
fn next_moves_on_when_nothing_is_there() {
    let node = scenario();
    let mut reader = Node::new(&node, &());
    for _ in 0..3 {
        assert!(reader.next().is_ok());
    }
    for i in 3..6 {
        assert_eq!(reader.next(), Err(MissingEntry { node: node.clone(), key: NodeKey::Index(i) }));
        assert_eq!(reader.cursor(), i + 1);
    }
}

#[test]
fn arguments_are_counted_without_the_properties() {
    let mut node = tree::Node::new("n");
    node.entries.push(tree::Entry::new_prop("a", tree::Value::Integer(1)));
    node.entries.push(arg(tree::Value::Integer(2)));
    node.entries.push(tree::Entry::new_prop("b", tree::Value::Integer(3)));
    node.entries.push(arg(tree::Value::Null));
    node.entries.push(arg(tree::Value::Integer(4)));
    let mut reader = Node::new(&node, &());
    assert_eq!(reader.decode_next::<u8>(), Ok(2));
    assert_eq!(reader.next(), Ok(&node.entries[3]));
    assert_eq!(reader.decode_next::<u8>(), Ok(4));
    assert!(reader.next().is_err());
    assert_eq!(node.entry_at(1), Some(&node.entries[3]));
    assert_eq!(node.entry(&NodeKey::Index(2)), Some(&node.entries[4]));
    assert_eq!(node.entry(&NodeKey::Key("b".to_string())), Some(&node.entries[2]));
}

#[test]
fn the_last_property_of_a_name_wins() {
    let mut node = tree::Node::new("n");
    node.entries.push(tree::Entry::new_prop("k", tree::Value::Integer(1)));
    node.entries.push(tree::Entry::new_prop("other", tree::Value::Integer(2)));
    node.entries.push(tree::Entry::new_prop("k", tree::Value::Integer(3)));
    let reader = Node::new(&node, &());
    assert_eq!(reader.decode_property::<u8>("k"), Ok(3));
    assert_eq!(reader.cursor(), 0);
}

#[test]
fn missing_property_names_node_and_key() {
    let node = scenario();
    let reader = Node::new(&node, &());
    let expected = MissingEntry { node: node.clone(), key: NodeKey::Key("nope".to_string()) };
    assert_eq!(reader.prop("nope"), Err(expected.clone()));
    assert_eq!(reader.prop("some_key"), Ok(&node.entries[3]));
    assert_eq!(reader.decode_property::<u8>("nope"), Err(RequiredValue::Missing(expected)));
}

#[test]
fn required_value_tells_missing_from_wrong_kind() {
    let node = scenario();
    let mut reader = Node::new(&node, &());
    assert_eq!(
        reader.decode_next::<String>(),
        Err(RequiredValue::Parse(ValueTypeMismatch {
            expected_type: "String",
            actual_type: "Integer",
            value: tree::Value::Integer(42),
        }))
    );
    assert_eq!(reader.cursor(), 1);
    assert_eq!(
        reader.decode_property::<bool>("some_key"),
        Err(RequiredValue::Parse(ValueTypeMismatch {
            expected_type: "Bool",
            actual_type: "Float",
            value: tree::Value::Float(3.0f64.to_bits()),
        }))
    );
}

#[test]
fn typed_asks_for_the_tag() {
    let node = scenario();
    assert_eq!(node.entries[1].typed(), Ok("Flag"));
    assert_eq!(node.entries[0].typed(), Err(MissingEntryType { value: node.entries[0].clone() }));
}

#[test]
fn children_filter_by_name_in_document_order() {
    let mut node = tree::Node::new("n");
    let mut doc = tree::Document { nodes: Vec::new() };
    for (i, name) in ["a", "b", "a", "c"].iter().enumerate() {
        let mut child = tree::Node::new(name);
        child.entries.push(arg(tree::Value::Integer(i as i128)));
        doc.nodes.push(child);
    }
    node.children = Some(doc);
    let ctx = 7u8;
    let reader = Node::new(&node, &ctx);
    let mut found = Vec::new();
    let mut iter = reader.children("a");
    while let Some(mut child) = iter.next() {
        assert!(child.is_child());
        assert_eq!(child.cursor(), 0);
        assert_eq!(*child.context(), 7);
        assert_eq!(child.name(), "a");
        found.push(child.decode_next::<u8>().unwrap());
    }
    assert_eq!(found, vec![0, 2]);
    assert_eq!(
        reader.child("z").map(|c| c.cursor()),
        Err(NodeMissingChild { node: node.clone(), child_name: "z".to_string() })
    );
    assert_eq!(reader.child("c").unwrap().decode_next::<u8>(), Ok(3));
    let mut all = reader.iter_children();
    let mut names = Vec::new();
    while let Some(child) = all.next() {
        names.push(child.name());
    }
    assert_eq!(names, vec!["a", "b", "a", "c"]);
    assert!(!reader.is_child());
    assert!(reader.has_children());
}

#[test]
fn node_without_children_has_no_document() {
    let node = scenario();
    let reader = Node::new(&node, &());
    assert_eq!(reader.document(), Err(MissingNodeDocument { node: node.clone() }));
    assert!(!reader.has_children());
    assert!(reader.children("a").next().is_none());
    assert!(reader.iter_children().next().is_none());
    assert!(reader.child("a").is_err());
    assert_eq!(reader.entries().len(), 4);

    let mut bare = tree::Node::new("n");
    bare.children = Some(tree::Document { nodes: Vec::new() });
    let reader = Node::new(&bare, &());
    assert!(reader.document().is_ok());
    assert!(!reader.has_children());
}

#[test]
fn child_readers_leave_the_parent_alone() {
    let node = node();
    let mut reader = Node::new(&node, &());
    let _ = reader.next();
    let mut child = reader.child("child1").unwrap();
    let _ = child.next();
    let _ = child.next();
    assert_eq!(reader.cursor(), 1);
    let copy = reader.clone();
    let _ = reader.next();
    assert_eq!(copy.cursor(), 1);
    assert_eq!(reader.cursor(), 2);
}

#[test]
fn first_values_of_children() {
    let node = node();
    let reader = Node::new(&node, &());
    let mut values = reader.iter_children().value();
    assert_eq!(values.next(), Some(Ok(&node.children.as_ref().unwrap().nodes[0].entries[0])));
    assert_eq!(
        values.next(),
        Some(Err(MissingEntry { node: empty(), key: NodeKey::Index(0) }))
    );
    assert!(values.next().unwrap().is_ok());
    assert!(values.next().unwrap().is_ok());
    assert_eq!(values.next(), None);

    assert_eq!(
        reader.children("child2").value().to::<String>().collect(),
        Ok(Ok(vec!["ValueA".to_string(), "ValueB".to_string()]))
    );
    assert_eq!(reader.children("child2").prop("flag").to::<bool>().collect(), Ok(Ok(vec![true, false])));
}

#[test]
fn collect_reports_a_missing_entry_before_a_wrong_kind() {
    let node = node();
    let reader = Node::new(&node, &());
    // child1 holds an integer, `empty` holds nothing, the others hold strings
    assert_eq!(
        reader.iter_children().value().to::<String>().collect(),
        Err(MissingEntry { node: empty(), key: NodeKey::Index(0) })
    );
    assert_eq!(
        reader.children("child2").value().to::<u8>().collect(),
        Ok(Err(ValueTypeMismatch {
            expected_type: "Integer",
            actual_type: "String",
            value: text("ValueA"),
        }))
    );
    assert_eq!(
        reader.iter_children().prop("flag").to::<bool>().collect(),
        Err(MissingEntry {
            node: node.children.as_ref().unwrap().nodes[0].clone(),
            key: NodeKey::Key("flag".to_string())
        })
    );
    let mut typed = reader.children("child2").value().to::<u8>();
    assert!(matches!(typed.next(), Some(Ok(Err(_)))));
    assert!(matches!(typed.next(), Some(Ok(Err(_)))));
    assert!(typed.next().is_none());
}

#[test]
fn typed_children_stop_at_the_first_failure() {
    let node = node();
    let reader = Node::new(&node, &());
    assert_eq!(
        reader.children("child2").to::<Flagged>().collect(),
        Ok(vec![
            Flagged { string: "ValueA".into(), flag: true },
            Flagged { string: "ValueB".into(), flag: false }
        ])
    );
    assert_eq!(
        reader.iter_children().to::<Number>().collect(),
        Err(QueryError::MissingValue(MissingEntry { node: empty(), key: NodeKey::Index(0) }))
    );
}

#[test]
fn absent_reader_and_entry_give_nothing() {
    let node = node();
    let reader = Node::new(&node, &());
    let none: Option<Node<()>> = None;
    assert_eq!(none.clone().next(), Ok(None));
    assert_eq!(none.clone().prop("flag"), Ok(None));
    assert_eq!(none.to::<Number>(), Ok(None));
    let some = reader.child("child2").ok();
    assert_eq!(some.clone().prop("flag").map(|e| e.is_some()), Ok(true));
    assert!(some.clone().prop("nope").is_err());
    assert_eq!(some.next().unwrap().to::<String>(), Ok(Some("ValueA".to_string())));
    assert_eq!(reader.child("child1").ok().to::<Number>(), Ok(Some(Number { value: 42 })));
    let missing: Option<&tree::Entry> = None;
    assert_eq!(missing.to::<u8>(), Ok(None));
    assert!(Some(&node.entries[2]).to::<u8>().is_err());
}

#[test]
fn documents_list_their_nodes() {
    let node = node();
    let doc = node.children.as_ref().unwrap();
    let mut names = Vec::new();
    let mut iter = doc.iter_children();
    while let Some(n) = iter.next() {
        names.push(n.name.as_str());
    }
    assert_eq!(names, vec!["child1", "empty", "child2", "child2"]);
    let mut named = doc.children("child2");
    assert_eq!(named.next(), Some(&doc.nodes[2]));
    assert_eq!(named.next(), Some(&doc.nodes[3]));
    assert_eq!(named.next(), None);
    assert_eq!(named.next(), None);
    assert_eq!(doc.child("child2"), Some(&doc.nodes[2]));
    assert_eq!(doc.child("nope"), None);
    assert!(IterDocumentNodes::opt(None).is_none());
    assert_eq!(IterDocumentNodes::opt(Some(doc)).unwrap().next(), Some(&doc.nodes[0]));
}

fn kdl_entry(e: &tree::Entry) -> kdl::KdlEntry {
    let value = match &e.value {
        tree::Value::String(s) => kdl::KdlValue::String(s.clone()),
        tree::Value::Integer(i) => kdl::KdlValue::Integer(*i),
        tree::Value::Float(bits) => kdl::KdlValue::Float(f64::from_bits(*bits)),
        tree::Value::Bool(b) => kdl::KdlValue::Bool(*b),
        tree::Value::Null => kdl::KdlValue::Null,
    };
    let mut entry = kdl::KdlEntry::new(value);
    entry.set_name(e.name.as_deref());
    if let Some(ty) = &e.ty {
        entry.set_ty(ty.as_str());
    }
    entry
}

#[test]
fn lookups_agree_with_the_tree_library() {
    let mut node = tree::Node::new("n");
    node.entries.push(tree::Entry::new_prop("a", tree::Value::Integer(1)));
    node.entries.push(arg(tree::Value::Integer(2)));
    node.entries.push(tree::Entry::new_prop("b", tree::Value::Null));
    node.entries.push(arg(tree::Value::Null));
    node.entries.push(tree::Entry::new_prop("a", text("x")));
    node.entries.push(arg(tree::Value::Bool(true)));
    let mut other = kdl::KdlNode::new("n");
    for e in node.entries.iter() {
        other.entries_mut().push(kdl_entry(e));
    }
    for idx in 0..5usize {
        assert_eq!(node.entry_at(idx).map(kdl_entry).as_ref(), other.entry(idx));
    }
    for key in ["a", "b", "c", ""] {
        assert_eq!(node.entry_named(key).map(kdl_entry).as_ref(), other.entry(key));
    }
}
