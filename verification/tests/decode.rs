use yaml_codec::deserialize::from_str;
use yaml_codec::error::DeserializeError;
use yaml_codec::shape::{FieldShape, Shape, VariantDecl};
use yaml_codec::value::{Entry, Value};

fn s(t: &str) -> String {
    String::from(t)
}

fn vstr(t: &str) -> Value {
    Value::Str(s(t))
}

fn entry(k: &str, v: Value) -> Entry {
    Entry { key: vstr(k), val: v }
}

fn field(n: &str, sh: Shape) -> FieldShape {
    FieldShape { name: s(n), shape: sh }
}

fn variant(t: &str, p: Shape) -> VariantDecl {
    VariantDecl { tag: s(t), payload: p }
}

fn address_shape() -> Shape {
    Shape::StructOf(vec![field("street", Shape::Str), field("state", Shape::Str)])
}

const ADDRESS_YAML_STR: &str = r###"
street: Kerkstraat
state: Noord Holland
"###;

#[test]
fn it_deserializes_mappings() {
    let shape = Shape::StructOf(vec![field("x", Shape::I32), field("y", Shape::I32)]);

    const POINT_YAML_STR: &str = r###"
x: 10
y: 45
"###;
    let result = from_str(POINT_YAML_STR, &shape).expect("Should deserialize");

    assert_eq!(
        result,
        Value::Mapping(vec![entry("x", Value::Int(10)), entry("y", Value::Int(45))])
    );

    let _err = from_str("x: 10\nz: 20", &shape).expect_err("Should not deserialize");

    assert_eq!(
        _err,
        DeserializeError::SerdeError(String::from("Missing field `y`"))
    );
}

#[test]
fn it_deserializes_strings() {
    let result = from_str(ADDRESS_YAML_STR, &address_shape()).expect("Should deserialize");

    assert_eq!(
        result,
        Value::Mapping(vec![
            entry("street", vstr("Kerkstraat")),
            entry("state", vstr("Noord Holland")),
        ])
    );
}

#[test]
fn it_reads_json_values() {
    let result = from_str(ADDRESS_YAML_STR, &Shape::Any).expect("Should deserialize");

    assert_eq!(
        result,
        Value::Mapping(vec![
            entry("street", vstr("Kerkstraat")),
            entry("state", vstr("Noord Holland")),
        ])
    );
}

#[test]
fn it_reads_nested_values() {
    const NESTED_ADDRESS_YAML_STR: &str = r###"
address:
    street: Kerkstraat
    state: Noord Holland
"###;

    let result = from_str(NESTED_ADDRESS_YAML_STR, &Shape::Any).expect("Should deserialize");

    assert_eq!(
        result,
        Value::Mapping(vec![entry(
            "address",
            Value::Mapping(vec![
                entry("street", vstr("Kerkstraat")),
                entry("state", vstr("Noord Holland")),
            ])
        )])
    );

    let nested_shape = Shape::StructOf(vec![field("address", address_shape())]);
    let address = from_str(NESTED_ADDRESS_YAML_STR, &nested_shape).expect("Should deserialize");

    assert_eq!(
        address,
        Value::Mapping(vec![entry(
            "address",
            Value::Mapping(vec![
                entry("street", vstr("Kerkstraat")),
                entry("state", vstr("Noord Holland")),
            ])
        )])
    );
}

#[test]
fn it_reads_sequences() {
    const SEQUENCE_ADDRESS_YAML_STR: &str = r###"
- street: Kerkstraat
  state: Noord Holland
- street: Main Street
  state: New York
"###;

    let result = from_str(SEQUENCE_ADDRESS_YAML_STR, &Shape::Any).expect("Should deserialize");

    assert_eq!(
        result,
        Value::Sequence(vec![
            Value::Mapping(vec![
                entry("street", vstr("Kerkstraat")),
                entry("state", vstr("Noord Holland")),
            ]),
            Value::Mapping(vec![
                entry("street", vstr("Main Street")),
                entry("state", vstr("New York")),
            ]),
        ])
    );

    let seq_shape = Shape::SequenceOf(Box::new(address_shape()));
    let address = from_str(SEQUENCE_ADDRESS_YAML_STR, &seq_shape).expect("Should deserialize");

    assert_eq!(
        address,
        Value::Sequence(vec![
            Value::Mapping(vec![
                entry("street", vstr("Kerkstraat")),
                entry("state", vstr("Noord Holland")),
            ]),
            Value::Mapping(vec![
                entry("street", vstr("Main Street")),
                entry("state", vstr("New York")),
            ]),
        ])
    );
}

#[test]
fn it_reads_enums() {
    let test_enum = Shape::EnumOf(vec![
        variant("ValueA", Shape::Unit),
        variant("ValueB", Shape::Unit),
    ]);
    let shape = Shape::StructOf(vec![field("value", test_enum)]);

    const STRUCT_WITH_ENUM_YAML_STR: &str = r###"
value: ValueA
"###;

    let result = from_str(STRUCT_WITH_ENUM_YAML_STR, &shape).expect("Should deserialize");

    assert_eq!(result, Value::Mapping(vec![entry("value", vstr("ValueA"))]));
}

#[test]
fn it_reads_externally_tagged_enums() {
    let tagged_enum = Shape::EnumOf(vec![
        variant(
            "ValueA",
            Shape::StructOf(vec![field("id", Shape::Str), field("method", Shape::Str)]),
        ),
        variant(
            "ValueB",
            Shape::StructOf(vec![field("id", Shape::Str), field("result", Shape::Str)]),
        ),
    ]);
    let shape = Shape::SequenceOf(Box::new(tagged_enum));

    const EXTERNALLY_TAGGED_ENUM_YAML_STR: &str = r###"
- ValueA:
    id: foo
    method: bar
- ValueB:
    id: baz
    result: passed
"###;
    let result = from_str(EXTERNALLY_TAGGED_ENUM_YAML_STR, &shape).expect("Should deserialize");

    assert_eq!(
        result,
        Value::Sequence(vec![
            Value::Tagged(
                s("ValueA"),
                Box::new(Value::Mapping(vec![
                    entry("id", vstr("foo")),
                    entry("method", vstr("bar")),
                ]))
            ),
            Value::Tagged(
                s("ValueB"),
                Box::new(Value::Mapping(vec![
                    entry("id", vstr("baz")),
                    entry("result", vstr("passed")),
                ]))
            ),
        ])
    );
}

#[test]
fn it_reads_other_enum_types() {
    let test_enum = Shape::EnumOf(vec![
        variant("ValueA", Shape::Unit),
        variant("ValueB", Shape::Unit),
    ]);

    let _value = from_str("ValueA", &test_enum).expect("Should deserialize");
    assert_eq!(_value, vstr("ValueA"));

    let tuple_enum = Shape::EnumOf(vec![variant(
        "T",
        Shape::TupleOf(vec![Shape::U8, Shape::U8]),
    )]);

    let _value = from_str("T:\n  - 27\n  - 32\n", &tuple_enum).expect("Should deserialize");
    assert_eq!(
        _value,
        Value::Tagged(
            s("T"),
            Box::new(Value::Sequence(vec![Value::UInt(27), Value::UInt(32)]))
        )
    );
}

#[test]
fn it_reads_all_the_int_formats() {
    let shape = Shape::StructOf(vec![
        field("sbyte", Shape::I8),
        field("ubyte", Shape::U8),
        field("sshort", Shape::I16),
        field("ushort", Shape::U16),
        field("slong", Shape::I32),
        field("ulong", Shape::U32),
        field("slonglong", Shape::I64),
        field("ulonglong", Shape::U64),
    ]);

    const TEST_INTS_YAML: &str = r###"
sbyte: -1
ubyte: 2
sshort: -3
ushort: 4
slong: -5
ulong: 6
slonglong: -7
ulonglong: 8
"###;
    let result = from_str(TEST_INTS_YAML, &shape).expect("Should deserialize");

    assert_eq!(
        result,
        Value::Mapping(vec![
            entry("sbyte", Value::Int(-1)),
            entry("ubyte", Value::UInt(2)),
            entry("sshort", Value::Int(-3)),
            entry("ushort", Value::UInt(4)),
            entry("slong", Value::Int(-5)),
            entry("ulong", Value::UInt(6)),
            entry("slonglong", Value::Int(-7)),
            entry("ulonglong", Value::UInt(8)),
        ])
    );
}

#[test]
fn it_reads_chars() {
    let shape = Shape::StructOf(vec![field("c", Shape::Char)]);

    from_str(
        r###"
c: ab
"###,
        &shape,
    )
    .expect_err("Should not deserialize");

    let result = from_str(
        r###"
c: a
"###,
        &shape,
    )
    .expect("Should deserialize");
    assert_eq!(result, Value::Mapping(vec![entry("c", vstr("a"))]));
}

#[test]
fn it_reads_bools() {
    let shape = Shape::StructOf(vec![field("b", Shape::Bool)]);

    from_str("b: not_a_boolean", &shape).expect_err("Should not deserialize");

    let result = from_str("b: True", &shape).expect("Should deserialize");
    assert_eq!(result, Value::Mapping(vec![entry("b", Value::Bool(true))]));

    from_str("b: tRUE", &shape).expect_err("Should not deserialize");
}

#[test]
fn it_reads_options() {
    let shape = Shape::StructOf(vec![field("opt", Shape::Optional(Box::new(Shape::Str)))]);

    let result = from_str("opt: foo", &shape).expect("Should deserialize");
    assert_eq!(result, Value::Mapping(vec![entry("opt", vstr("foo"))]));

    let result = from_str("opt: null", &shape).expect("Should deserialize");
    assert_eq!(result, Value::Mapping(vec![entry("opt", Value::Null)]));

    // the lexical layer resolves a blank after the colon to an empty scalar
    let result = from_str("opt: ", &shape).expect("Should deserialize");
    assert_eq!(result, Value::Mapping(vec![entry("opt", Value::Null)]));
}

#[test]
fn it_reads_unit() {
    let _value = from_str("~", &Shape::Unit).expect("Should deserialize");
    let _value = from_str("null", &Shape::Unit).expect("Should deserialize");
    let _value = from_str("---\n", &Shape::Unit).expect("Should deserialize");
}

#[test]
fn it_reads_unit_structs() {
    let _value = from_str("~", &Shape::Unit).expect("Should deserialize");
    let _value = from_str("null", &Shape::Unit).expect("Should deserialize");
    let _value = from_str("---\n", &Shape::Unit).expect("Should deserialize");

    assert_eq!(_value, Value::Null);
}

#[test]
fn it_reads_newtype_structs() {
    let _value = from_str("5", &Shape::U32).expect("Should deserialize");

    assert_eq!(_value, Value::UInt(5));
}

#[test]
fn it_reads_tuples() {
    let shape = Shape::TupleOf(vec![Shape::Str, Shape::I32]);

    let _value = from_str("- abc\n- 27\n", &shape).expect("Should deserialize");

    assert_eq!(
        _value,
        Value::Sequence(vec![vstr("abc"), Value::Int(27)])
    );

    from_str("- abc\n- 27\n- too many values\n", &shape).expect_err("Should not deserialize");
}

#[test]
fn it_reads_tuple_structs() {
    let shape = Shape::TupleOf(vec![Shape::I32, Shape::I32]);

    let _value = from_str("- 27\n- 32\n", &shape).expect("Should deserialize");

    assert_eq!(
        _value,
        Value::Sequence(vec![Value::Int(27), Value::Int(32)])
    );

    from_str("- 32\n- 27\n- 47\n", &shape).expect_err("Should not deserialize");
    from_str("- not a i32\n- 27\n", &shape).expect_err("Should not deserialize");
}

#[test]
fn unknown_field_with_all_fields_present_fails() {
    let shape = Shape::StructOf(vec![field("x", Shape::I32), field("y", Shape::I32)]);

    let err = from_str("x: 10\ny: 45\nz: 20", &shape).expect_err("Should not deserialize");
    assert_eq!(
        err,
        DeserializeError::SerdeError(String::from("Unknown field `z`"))
    );
}

#[test]
fn last_occurrence_of_a_duplicate_field_wins() {
    let shape = Shape::StructOf(vec![field("x", Shape::I32)]);

    let result = from_str("x: 1\nx: 2", &shape).expect("Should deserialize");
    assert_eq!(result, Value::Mapping(vec![entry("x", Value::Int(2))]));
}
