use yaml_codec::deserialize::from_str;
use yaml_codec::serialize::to_string;
use yaml_codec::shape::{FieldShape, Shape};
use yaml_codec::value::{Entry, Value};

fn s(t: &str) -> String {
    String::from(t)
}

fn vstr(t: &str) -> Value {
    Value::Str(s(t))
}

fn entry(k: &str, v: Value) -> Entry {
    Entry { key: vstr(k), val: v }
}

fn field(n: &str, sh: Shape) -> FieldShape {
    FieldShape { name: s(n), shape: sh }
}

#[test]
fn test_struct() {
    let test = Value::Mapping(vec![
        entry("int", Value::UInt(1)),
        entry("seq", Value::Sequence(vec![vstr("a"), vstr("b")])),
    ]);
    let expected = r###"int: 1
seq:
  - a
  - b
"###;
    assert_eq!(to_string(&test).unwrap(), expected);
}

#[test]
fn test_enum() {
    let u = vstr("Unit");
    let expected = "Unit\n";
    assert_eq!(to_string(&u).unwrap(), expected);

    let n = Value::Tagged(s("Newtype"), Box::new(Value::UInt(1)));
    let expected = "Newtype: 1\n";
    assert_eq!(to_string(&n).unwrap(), expected);

    let t = Value::Tagged(
        s("Tuple"),
        Box::new(Value::Sequence(vec![Value::UInt(1), Value::UInt(2)])),
    );
    let expected = r###"Tuple:
  - 1
  - 2
"###;
    assert_eq!(to_string(&t).unwrap(), expected);

    let v = Value::Tagged(
        s("Struct"),
        Box::new(Value::Mapping(vec![entry("a", Value::UInt(1))])),
    );
    let expected = r#"Struct:
  a: 1
"#;
    assert_eq!(to_string(&v).unwrap(), expected);
}

#[test]
fn test_outdenting() {
    let v = Value::Sequence(vec![
        vstr("Unit"),
        Value::Tagged(s("Newtype"), Box::new(Value::UInt(1))),
        Value::Tagged(
            s("Tuple"),
            Box::new(Value::Sequence(vec![Value::UInt(1), Value::UInt(2)])),
        ),
        Value::Tagged(
            s("Struct"),
            Box::new(Value::Mapping(vec![entry("a", Value::UInt(1))])),
        ),
        Value::Tagged(s("Newtype"), Box::new(Value::UInt(2))),
        Value::Tagged(
            s("Tuple"),
            Box::new(Value::Sequence(vec![Value::UInt(3), Value::UInt(4)])),
        ),
        Value::Tagged(
            s("Struct"),
            Box::new(Value::Mapping(vec![entry("a", Value::UInt(2))])),
        ),
    ]);

    let expected = r#"- Unit
- Newtype: 1
- Tuple:
    - 1
    - 2
- Struct:
    a: 1
- Newtype: 2
- Tuple:
    - 3
    - 4
- Struct:
    a: 2
"#;
    assert_eq!(to_string(&v).unwrap(), expected);
}

#[test]
fn it_writes_multiline_strings() {
    // Strings whose characters collide with the block syntax are a
    // documented non-goal: the text is embedded unchanged, with no quoting
    // or escaping, so such output does not round-trip.
    let v = Value::Mapping(vec![entry("text", vstr("two\nlines"))]);
    assert_eq!(to_string(&v).unwrap(), "text: two\nlines\n");
}

#[test]
fn it_serializes_other_types() {
    let nested = Value::Mapping(vec![
        entry("street", vstr("Main Street")),
        entry("state", vstr("New Jersey")),
    ]);
    let map = Value::Mapping(vec![
        entry("foo", vstr("bar")),
        entry("baz", vstr("duh")),
    ]);
    let v = Value::Mapping(vec![
        entry("b", Value::Bool(true)),
        entry("o_none", Value::Null),
        entry("o_some", vstr("Some string")),
        entry("nested", nested),
        entry("sbyte", Value::Int(-1)),
        entry("ubyte", Value::UInt(2)),
        entry("sshort", Value::Int(-3)),
        entry("ushort", Value::UInt(4)),
        entry("slong", Value::Int(-5)),
        entry("ulong", Value::UInt(6)),
        entry("slonglong", Value::Int(-7)),
        entry("ulonglong", Value::UInt(8)),
        entry(
            "tuple",
            Value::Sequence(vec![Value::Int(9), vstr("that's a tuple")]),
        ),
        entry("newtype", Value::UInt(10)),
        entry("map", map),
    ]);

    let expected = r#"b: true
o_none: null
o_some: Some string
nested:
  street: Main Street
  state: New Jersey
sbyte: -1
ubyte: 2
sshort: -3
ushort: 4
slong: -5
ulong: 6
slonglong: -7
ulonglong: 8
tuple:
  - 9
  - that's a tuple
newtype: 10
map:
  foo: bar
  baz: duh
"#;

    assert_eq!(to_string(&v).unwrap(), expected);
}

#[test]
fn sequence_of_structs_encodes_byte_identically() {
    // the block-sequence form of two records reproduces its own source
    let v = Value::Sequence(vec![
        Value::Mapping(vec![
            entry("street", vstr("Kerkstraat")),
            entry("state", vstr("Noord Holland")),
        ]),
        Value::Mapping(vec![
            entry("street", vstr("Main Street")),
            entry("state", vstr("New York")),
        ]),
    ]);
    let text = "- street: Kerkstraat\n  state: Noord Holland\n- street: Main Street\n  state: New York\n";
    assert_eq!(to_string(&v).unwrap(), text);

    let seq_shape = Shape::SequenceOf(Box::new(Shape::StructOf(vec![
        field("street", Shape::Str),
        field("state", Shape::Str),
    ])));
    let decoded = from_str(text, &seq_shape).expect("Should deserialize");
    assert_eq!(decoded, v);
}

#[test]
fn encoding_rejects_a_non_scalar_key() {
    let v = Value::Mapping(vec![Entry {
        key: Value::Sequence(vec![Value::UInt(1)]),
        val: Value::UInt(2),
    }]);
    to_string(&v).expect_err("Should not serialize");
}

#[test]
fn round_trip_struct_value() {
    let v = Value::Mapping(vec![
        entry("name", vstr("Ada")),
        entry("age", Value::UInt(36)),
        entry("admin", Value::Bool(false)),
    ]);
    let text = to_string(&v).unwrap();
    let shape = Shape::StructOf(vec![
        field("name", Shape::Str),
        field("age", Shape::U64),
        field("admin", Shape::Bool),
    ]);
    let back = from_str(&text, &shape).expect("Should deserialize");
    assert_eq!(back, v);
}

#[test]
fn round_trip_tagged_value() {
    let v = Value::Tagged(
        s("Request"),
        Box::new(Value::Mapping(vec![
            entry("id", vstr("foo")),
            entry("method", vstr("PUT")),
        ])),
    );
    let text = to_string(&v).unwrap();
    let shape = Shape::EnumOf(vec![yaml_codec::shape::VariantDecl {
        tag: s("Request"),
        payload: Shape::StructOf(vec![field("id", Shape::Str), field("method", Shape::Str)]),
    }]);
    let back = from_str(&text, &shape).expect("Should deserialize");
    assert_eq!(back, v);
}

#[test]
fn round_trip_int_extremes() {
    let v = Value::Sequence(vec![
        Value::Int(i64::MIN),
        Value::Int(-1),
        Value::Int(0),
        Value::UInt(u64::MAX),
    ]);
    let text = to_string(&v).unwrap();
    assert_eq!(
        text,
        "- -9223372036854775808\n- -1\n- 0\n- 18446744073709551615\n"
    );
    let shape = Shape::SequenceOf(Box::new(Shape::Any));
    let back = from_str(&text, &shape).expect("Should deserialize");
    assert_eq!(
        back,
        Value::Sequence(vec![
            vstr("-9223372036854775808"),
            vstr("-1"),
            vstr("0"),
            vstr("18446744073709551615"),
        ])
    );
}
