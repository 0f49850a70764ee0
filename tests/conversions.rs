use object_entries::convert::{build_entry, from_entries, make_key_string, to_entries};
use object_entries::error::ConversionError;
use object_entries::value::{Kind, ObjectMap, Value};

fn bytes(s: &str) -> Value {
    Value::Bytes(s.as_bytes().to_vec())
}

fn object(fields: Vec<(&str, Value)>) -> Value {
    let mut m = ObjectMap::new();
    for (k, v) in fields {
        m.insert(k.to_string(), v);
    }
    Value::Object(m)
}

fn entry(k: &str, v: Value) -> Value {
    object(vec![("key", bytes(k)), ("value", v)])
}

#[test]
fn empty_object() {
    assert_eq!(to_entries(object(vec![])), Ok(Value::Array(vec![])));
}

#[test]
fn object_to_entries() {
    let got = to_entries(object(vec![("foo", bytes("bar"))]));
    assert_eq!(got, Ok(Value::Array(vec![entry("foo", bytes("bar"))])));
}

#[test]
fn non_object() {
    let got = to_entries(Value::Boolean(true));
    let want = ConversionError::ShapeMismatch { expected: Kind::Object, got: Kind::Boolean };
    assert_eq!(got, Err(want));
    assert_eq!(want.message(), "expected object, got boolean");
}

#[test]
fn to_entries_keeps_field_order() {
    let got = to_entries(object(vec![
        ("b", Value::Integer(1)),
        ("a", Value::Null),
        ("c", Value::Array(vec![Value::Boolean(false)])),
    ]));
    let want = Value::Array(vec![
        entry("b", Value::Integer(1)),
        entry("a", Value::Null),
        entry("c", Value::Array(vec![Value::Boolean(false)])),
    ]);
    assert_eq!(got, Ok(want));
}

#[test]
fn empty_array() {
    assert_eq!(from_entries(Value::Array(vec![])), Ok(object(vec![])));
}

#[test]
fn array() {
    let got = from_entries(Value::Array(vec![entry("foo", bytes("bar"))]));
    assert_eq!(got, Ok(object(vec![("foo", bytes("bar"))])));
}

#[test]
fn missing_value_defaults_to_null() {
    let got = from_entries(Value::Array(vec![object(vec![("key", bytes("foo"))])]));
    assert_eq!(got, Ok(object(vec![("foo", Value::Null)])));
}

#[test]
fn duplicate_keys_last_wins() {
    let got = from_entries(Value::Array(vec![
        entry("a", Value::Integer(1)),
        entry("a", Value::Integer(2)),
    ]));
    assert_eq!(got, Ok(object(vec![("a", Value::Integer(2))])));
}

#[test]
fn duplicate_key_keeps_first_position() {
    let got = from_entries(Value::Array(vec![
        entry("a", Value::Integer(1)),
        entry("b", Value::Integer(2)),
        entry("a", Value::Integer(3)),
    ]));
    assert_eq!(got, Ok(object(vec![("a", Value::Integer(3)), ("b", Value::Integer(2))])));
}

#[test]
fn non_array() {
    let got = from_entries(Value::Boolean(true));
    let want = ConversionError::ShapeMismatch { expected: Kind::Array, got: Kind::Boolean };
    assert_eq!(got, Err(want));
    assert_eq!(want.message(), "expected array, got boolean");
}

#[test]
fn entry_not_object() {
    let got = from_entries(Value::Array(vec![Value::Boolean(true)]));
    let want = ConversionError::ShapeMismatch { expected: Kind::Object, got: Kind::Boolean };
    assert_eq!(got, Err(want));
    assert_eq!(want.message(), "expected object, got boolean");
}

#[test]
fn key_not_string() {
    let got = from_entries(Value::Array(vec![object(vec![
        ("key", Value::Integer(1)),
        ("value", bytes("bar")),
    ])]));
    assert_eq!(got, Err(ConversionError::KeyTypeError));
    assert_eq!(ConversionError::KeyTypeError.message(), "object keys must be strings");
}

#[test]
fn missing_key_is_a_key_error() {
    let got = from_entries(Value::Array(vec![object(vec![("value", bytes("bar"))])]));
    assert_eq!(got, Err(ConversionError::KeyTypeError));
}

#[test]
fn first_bad_element_decides() {
    let got = from_entries(Value::Array(vec![
        entry("a", Value::Null),
        Value::Integer(7),
        object(vec![("key", Value::Null)]),
    ]));
    let want = ConversionError::ShapeMismatch { expected: Kind::Object, got: Kind::Integer };
    assert_eq!(got, Err(want));
    assert_eq!(want.message(), "expected object, got integer");
}

#[test]
fn extra_entry_fields_are_ignored() {
    let got = from_entries(Value::Array(vec![object(vec![
        ("value", Value::Integer(5)),
        ("other", Value::Null),
        ("key", bytes("x")),
    ])]));
    assert_eq!(got, Ok(object(vec![("x", Value::Integer(5))])));
}

#[test]
fn round_trip_restores_object() {
    let original = || {
        object(vec![
            ("z", Value::Integer(-3)),
            ("", Value::Null),
            ("é", object(vec![("inner", bytes("v"))])),
        ])
    };
    let entries = to_entries(original()).unwrap();
    assert_eq!(from_entries(entries), Ok(original()));
}

#[test]
fn make_key_string_decodes_utf8() {
    assert_eq!(make_key_string(bytes("héllo")), Ok("héllo".to_string()));
}

#[test]
fn make_key_string_replaces_invalid_utf8() {
    let got = make_key_string(Value::Bytes(vec![0x66, 0xff, 0x6f]));
    assert_eq!(got, Ok("f\u{FFFD}o".to_string()));
}

#[test]
fn make_key_string_rejects_non_bytes() {
    assert_eq!(make_key_string(Value::Null), Err(ConversionError::KeyTypeError));
    assert_eq!(make_key_string(Value::Boolean(false)), Err(ConversionError::KeyTypeError));
}

#[test]
fn build_entry_shape() {
    let got = build_entry("k".to_string(), Value::Integer(9));
    assert_eq!(got, entry("k", Value::Integer(9)));
}

#[test]
fn object_map_insert_overwrites_in_place() {
    let mut m = ObjectMap::new();
    m.insert("a".to_string(), Value::Integer(1));
    m.insert("b".to_string(), Value::Integer(2));
    m.insert("a".to_string(), Value::Integer(3));
    assert_eq!(m.len(), 2);
    let fields = m.into_fields();
    assert_eq!(fields[0], ("a".to_string(), Value::Integer(3)));
    assert_eq!(fields[1], ("b".to_string(), Value::Integer(2)));
}

#[test]
fn object_map_remove() {
    let mut m = ObjectMap::new();
    m.insert("a".to_string(), Value::Integer(1));
    assert_eq!(m.remove(&"b".to_string()), None);
    assert_eq!(m.remove(&"a".to_string()), Some(Value::Integer(1)));
    assert_eq!(m.len(), 0);
}

#[test]
fn kind_names() {
    assert_eq!(Value::Null.kind().name(), "null");
    assert_eq!(Value::Integer(0).kind().name(), "integer");
    assert_eq!(Value::Bytes(vec![]).kind().name(), "string");
    assert_eq!(Value::Array(vec![]).kind().name(), "array");
}
