use kdlize::builder::{Node, Value};
use kdlize::error::{
    FailedToParseValueString, MissingEntry, MissingEntryType, MissingTypedEntry, NodeMissingChild,
    QueryError, RequiredChild, RequiredValue, ValueTypeMismatch,
};
use kdlize::reader;
use kdlize::tree;
use kdlize::tree::NodeKey;
use kdlize::{text_as_kdl, text_from_kdl, AsKdlValue, FloatBits, FromKdlValue, NodeId};

struct Celsius(i32);

impl<'doc> FromKdlValue<'doc> for Celsius {
    type Error = ValueTypeMismatch;

    fn from_kdl(value: &'doc tree::Value) -> Result<Self, Self::Error> {
        match value {
            tree::Value::Integer(i) => Ok(Celsius(*i as i32)),
            _ => Err(ValueTypeMismatch::new(value, "Integer")),
        }
    }
}

impl AsKdlValue for Celsius {
    fn as_kdl(&self) -> tree::Value {
        tree::Value::Integer(self.0 as i128)
    }
}

impl NodeId for Celsius {
    fn id() -> &'static str {
        "celsius"
    }

    fn get_id(&self) -> &'static str {
        "celsius"
    }
}

#[test]
fn user_type_round_trip() {
    let value = Celsius(21).as_kdl();
    assert_eq!(value, tree::Value::Integer(21));
    assert_eq!(Celsius::from_kdl(&value).map(|c| c.0), Ok(21));
    assert_eq!(Celsius::id(), Celsius(0).get_id());
    let node = Node::default().with(Value(Celsius(-3))).build("t");
    let mut reader = reader::Node::new(&node, &());
    assert_eq!(reader.decode_next::<Celsius>().map(|c| c.0), Ok(-3));
}

#[test]
fn integers_round_trip() {
    assert_eq!(u8::from_kdl(&200u8.as_kdl()), Ok(200));
    assert_eq!(i8::from_kdl(&(-100i8).as_kdl()), Ok(-100));
    assert_eq!(u16::from_kdl(&u16::MAX.as_kdl()), Ok(u16::MAX));
    assert_eq!(i16::from_kdl(&i16::MIN.as_kdl()), Ok(i16::MIN));
    assert_eq!(u32::from_kdl(&u32::MAX.as_kdl()), Ok(u32::MAX));
    assert_eq!(i32::from_kdl(&i32::MIN.as_kdl()), Ok(i32::MIN));
    assert_eq!(u64::from_kdl(&u64::MAX.as_kdl()), Ok(u64::MAX));
    assert_eq!(i64::from_kdl(&i64::MIN.as_kdl()), Ok(i64::MIN));
    assert_eq!(u128::from_kdl(&u128::MAX.as_kdl()), Ok(u128::MAX));
    assert_eq!(i128::from_kdl(&i128::MIN.as_kdl()), Ok(i128::MIN));
    assert_eq!(usize::from_kdl(&usize::MAX.as_kdl()), Ok(usize::MAX));
    assert_eq!(isize::from_kdl(&isize::MIN.as_kdl()), Ok(isize::MIN));
    assert_eq!(u128::MAX.as_kdl(), tree::Value::Integer(-1));
    assert_eq!(7u8.as_kdl(), tree::Value::Integer(7));
}

#[test]
fn integers_out_of_range_are_cut_to_size() {
    assert_eq!(u8::from_kdl(&tree::Value::Integer(300)), Ok(44));
    assert_eq!(i8::from_kdl(&tree::Value::Integer(200)), Ok(-56));
    assert_eq!(u16::from_kdl(&tree::Value::Integer(-1)), Ok(u16::MAX));
    assert_eq!(u64::from_kdl(&tree::Value::Integer(1i128 << 64)), Ok(0));
}

#[test]
fn other_values_round_trip() {
    assert_eq!(bool::from_kdl(&true.as_kdl()), Ok(true));
    assert_eq!(String::from_kdl(&"abc".to_string().as_kdl()), Ok("abc".to_string()));
    assert_eq!(String::from_kdl(&String::new().as_kdl()), Ok(String::new()));
    assert_eq!(<&str>::from_kdl(&"abc".as_kdl()), Ok("abc"));
    assert_eq!(str::as_kdl("abc"), tree::Value::String("abc".to_string()));
    let bits = FloatBits(1.5f64.to_bits());
    assert_eq!(FloatBits::from_kdl(&bits.as_kdl()), Ok(bits));
    assert_eq!(bits.as_kdl(), tree::Value::Float(1.5f64.to_bits()));
    let value = tree::Value::Bool(true);
    assert_eq!(<&tree::Value>::from_kdl(&value), Ok(&value));
    assert_eq!((&5u8).as_kdl(), tree::Value::Integer(5));
}

#[test]
fn absent_value_is_null() {
    assert_eq!(None::<u8>.as_kdl(), tree::Value::Null);
    assert_eq!(Some(3u8).as_kdl(), tree::Value::Integer(3));
    assert_eq!(Some(None::<u8>).as_kdl(), tree::Value::Null);
}

#[test]
fn empty_text_is_null() {
    assert_eq!(text_as_kdl(String::new()), tree::Value::Null);
    assert_eq!(text_as_kdl("x".to_string()), tree::Value::String("x".to_string()));
    assert_eq!(text_from_kdl(&text_as_kdl("x".to_string())), Ok("x"));
    assert_eq!(
        text_from_kdl(&text_as_kdl(String::new())),
        Err(ValueTypeMismatch { expected_type: "String", actual_type: "Null", value: tree::Value::Null })
    );
}

#[test]
fn mismatch_names_both_kinds() {
    let values = [
        (tree::Value::String("s".to_string()), "String"),
        (tree::Value::Integer(1), "Integer"),
        (tree::Value::Float(0), "Float"),
        (tree::Value::Bool(true), "Bool"),
        (tree::Value::Null, "Null"),
    ];
    for (value, kind) in values.iter() {
        let e = ValueTypeMismatch::new(value, "Wanted");
        assert_eq!(e.expected_type, "Wanted");
        assert_eq!(e.actual_type, *kind);
        assert_eq!(&e.value, value);
    }
    assert_eq!(
        u8::from_kdl(&tree::Value::Null),
        Err(ValueTypeMismatch { expected_type: "Integer", actual_type: "Null", value: tree::Value::Null })
    );
    assert_eq!(
        bool::from_kdl(&tree::Value::Integer(1)),
        Err(ValueTypeMismatch {
            expected_type: "Bool",
            actual_type: "Integer",
            value: tree::Value::Integer(1)
        })
    );
    assert_eq!(
        FloatBits::from_kdl(&tree::Value::Integer(1)).map_err(|e| e.expected_type),
        Err("Float")
    );
    assert_eq!(i128::from_kdl(&tree::Value::Bool(true)).map_err(|e| e.actual_type), Err("Bool"));
}

#[test]
fn errors_convert_into_the_common_error() {
    let node = tree::Node::new("n");
    let missing = MissingEntry::new_index(&node, 2);
    assert_eq!(missing, MissingEntry { node: node.clone(), key: NodeKey::Index(2) });
    let by_key = MissingEntry::new_prop(&node, "k");
    assert_eq!(by_key.key, NodeKey::Key("k".to_string()));
    assert_eq!(QueryError::from(missing.clone()), QueryError::MissingValue(missing.clone()));
    let untyped = MissingEntryType { value: tree::Entry::new(tree::Value::Null) };
    assert_eq!(QueryError::from(untyped.clone()), QueryError::MissingType(untyped.clone()));
    let mismatch = ValueTypeMismatch::new(&tree::Value::Null, "Bool");
    assert_eq!(
        QueryError::from(ValueTypeMismatch::new(&tree::Value::Null, "Bool")),
        QueryError::ValueTypeMismatch(ValueTypeMismatch::new(&tree::Value::Null, "Bool"))
    );
    let child = NodeMissingChild { node: node.clone(), child_name: "c".to_string() };
    assert_eq!(QueryError::from(child.clone()), QueryError::MissingChild(child.clone()));
    assert_eq!(
        QueryError::from(RequiredValue::<ValueTypeMismatch>::Missing(missing.clone())),
        QueryError::MissingValue(missing.clone())
    );
    assert_eq!(
        QueryError::from(RequiredValue::Parse(mismatch)),
        QueryError::ValueTypeMismatch(ValueTypeMismatch::new(&tree::Value::Null, "Bool"))
    );
    assert_eq!(
        MissingTypedEntry::from(missing.clone()),
        MissingTypedEntry::MissingValue(missing.clone())
    );
    assert_eq!(MissingTypedEntry::from(untyped.clone()), MissingTypedEntry::MissingType(untyped));
    assert_eq!(RequiredChild::from(5u8), RequiredChild::Parse(5u8));
    assert_ne!(RequiredChild::<u8>::Missing(child), RequiredChild::Parse(5u8));
    assert_ne!(
        FailedToParseValueString::<u8>::TypeMismatch(ValueTypeMismatch::new(
            &tree::Value::Null,
            "String"
        )),
        FailedToParseValueString::FromStr(1u8)
    );
    assert_ne!(QueryError::UserProvided("x".to_string()), QueryError::MissingValue(missing));
}

#[test]
fn built_values_read_back() {
    let node = Node::default()
        .with(Value(-7i64))
        .with(Value(true))
        .with(Value("text"))
        .with(Value(FloatBits(2.5f64.to_bits())))
        .with(Value(Some(9u16)))
        .build("n");
    let mut reader = reader::Node::new(&node, &());
    assert_eq!(reader.decode_next::<i64>(), Ok(-7));
    assert_eq!(reader.decode_next::<bool>(), Ok(true));
    assert_eq!(reader.decode_next::<String>(), Ok("text".to_string()));
    assert_eq!(reader.decode_next::<FloatBits>().map(|b| f64::from_bits(b.0)), Ok(2.5));
    assert_eq!(reader.decode_next::<u16>(), Ok(9));
    assert!(reader.decode_next::<u16>().is_err());
}
