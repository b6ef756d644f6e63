use yaml_codec::deserialize::{from_str, YamlDeserializer};
use yaml_codec::error::DeserializeError;
use yaml_codec::shape::{FieldShape, Shape};
use yaml_codec::value::{Entry, Value};

fn s(t: &str) -> String {
    String::from(t)
}

fn vstr(t: &str) -> Value {
    Value::Str(s(t))
}

fn entry(k: &str, v: Value) -> Entry {
    Entry { key: vstr(k), val: v }
}

fn field(n: &str, sh: Shape) -> FieldShape {
    FieldShape { name: s(n), shape: sh }
}

#[test]
fn boolean_literal_families_are_exact() {
    let truthy = ["y", "Y", "yes", "Yes", "YES", "true", "True", "TRUE", "on", "On", "ON"];
    for lit in truthy {
        let text = format!("b: {}", lit);
        let shape = Shape::StructOf(vec![field("b", Shape::Bool)]);
        let result = from_str(&text, &shape).expect("Should deserialize");
        assert_eq!(result, Value::Mapping(vec![entry("b", Value::Bool(true))]));
    }
    // the blank-after-colon convention: an empty scalar is truthy
    let shape = Shape::StructOf(vec![field("b", Shape::Bool)]);
    let result = from_str("b: ", &shape).expect("Should deserialize");
    assert_eq!(result, Value::Mapping(vec![entry("b", Value::Bool(true))]));

    let falsy = ["n", "N", "no", "No", "NO", "false", "False", "FALSE", "off", "Off", "OFF"];
    for lit in falsy {
        let text = format!("b: {}", lit);
        let result = from_str(&text, &shape).expect("Should deserialize");
        assert_eq!(result, Value::Mapping(vec![entry("b", Value::Bool(false))]));
    }

    for bad in ["tRUE", "yES", "oN", "nO", "fAlse", "truthy", "0", "1"] {
        let text = format!("b: {}", bad);
        let err = from_str(&text, &shape).expect_err("Should not deserialize");
        match err {
            DeserializeError::BoolParseError { text: t, .. } => assert_eq!(t, bad),
            other => panic!("expected BoolParseError, got {:?}", other),
        }
    }
}

#[test]
fn null_literal_family_is_exact() {
    for lit in ["null", "Null", "NULL", "~"] {
        let v = from_str(lit, &Shape::Unit).expect("Should deserialize");
        assert_eq!(v, Value::Null);
    }
    for bad in ["nULL", "nil", "None"] {
        let err = from_str(bad, &Shape::Unit).expect_err("Should not deserialize");
        assert_eq!(err, DeserializeError::TypeError);
    }
}

#[test]
fn out_of_range_numbers_name_the_width_and_text() {
    let cases: [(&str, Shape, &str); 6] = [
        ("300", Shape::U8, "u8"),
        ("70000", Shape::U16, "u16"),
        ("4294967296", Shape::U32, "u32"),
        ("128", Shape::I8, "i8"),
        ("-129", Shape::I8, "i8"),
        ("9223372036854775808", Shape::I64, "i64"),
    ];
    for (text, shape, width) in cases {
        let err = from_str(text, &shape).expect_err("Should not deserialize");
        match err {
            DeserializeError::NumberParseError { text: t, err: e, type_string, .. } => {
                assert_eq!(t, text);
                assert_eq!(e, "out of range");
                assert_eq!(type_string, width);
            },
            other => panic!("expected NumberParseError, got {:?}", other),
        }
    }
}

#[test]
fn non_numeric_text_names_the_width_and_text() {
    let cases: [(&str, Shape, &str); 4] = [
        ("abc", Shape::U8, "u8"),
        ("1.5", Shape::U64, "u64"),
        ("-2", Shape::U32, "u32"),
        ("ten", Shape::I16, "i16"),
    ];
    for (text, shape, width) in cases {
        let err = from_str(text, &shape).expect_err("Should not deserialize");
        match err {
            DeserializeError::NumberParseError { text: t, err: e, type_string, .. } => {
                assert_eq!(t, text);
                assert_eq!(e, "invalid digit");
                assert_eq!(type_string, width);
            },
            other => panic!("expected NumberParseError, got {:?}", other),
        }
    }
}

#[test]
fn a_signed_scalar_accepts_a_plus_sign() {
    let v = from_str("+42", &Shape::I32).expect("Should deserialize");
    assert_eq!(v, Value::Int(42));
    let v = from_str("+42", &Shape::U32).expect("Should deserialize");
    assert_eq!(v, Value::UInt(42));
}

#[test]
fn a_collection_where_a_scalar_is_expected_is_unexpected() {
    let err = from_str("- a\n- b\n", &Shape::Bool).expect_err("Should not deserialize");
    match err {
        DeserializeError::UnexpectedElement { .. } => {},
        other => panic!("expected UnexpectedElement, got {:?}", other),
    }
}

#[test]
fn an_unknown_variant_is_reported_by_tag() {
    let shape = Shape::EnumOf(vec![yaml_codec::shape::VariantDecl {
        tag: s("Known"),
        payload: Shape::Unit,
    }]);
    let err = from_str("Other", &shape).expect_err("Should not deserialize");
    assert_eq!(err, DeserializeError::SerdeError(s("Unknown variant `Other`")));
}

#[test]
fn an_exhausted_stream_terminates_early() {
    let mut de = YamlDeserializer::from_str("");
    // an empty input still yields the stream markers
    de.start_stream().expect("stream start");
    de.end_stream().expect("stream end");
    let err = de.next_event().expect_err("Should be exhausted");
    assert_eq!(err, DeserializeError::EarlyTermination);
}

#[test]
fn a_lexical_fault_is_wrapped_as_a_scan_error() {
    let err = from_str("a: [1, 2", &Shape::Any).expect_err("Should not deserialize");
    match err {
        DeserializeError::ScanError(_) => {},
        other => panic!("expected ScanError, got {:?}", other),
    }
}

#[test]
fn trailing_content_after_the_document_fails() {
    let err = from_str("a\n---\nb\n", &Shape::Str).expect_err("Should not deserialize");
    match err {
        DeserializeError::UnexpectedElement { .. } => {},
        other => panic!("expected UnexpectedElement, got {:?}", other),
    }
}

#[test]
fn a_missing_field_is_named_before_an_unknown_one() {
    let shape = Shape::StructOf(vec![field("x", Shape::I32), field("y", Shape::I32)]);
    let err = from_str("x: 1\nz: 3", &shape).expect_err("Should not deserialize");
    assert_eq!(err, DeserializeError::SerdeError(s("Missing field `y`")));
}

#[test]
fn a_char_scalar_must_hold_one_character() {
    let err = from_str("ab", &Shape::Char).expect_err("Should not deserialize");
    assert_eq!(err, DeserializeError::TypeError);
    let v = from_str("a", &Shape::Char).expect("Should deserialize");
    assert_eq!(v, vstr("a"));
}
