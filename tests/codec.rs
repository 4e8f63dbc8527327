use daimojo::codec::{decode_cell, encode_cell, mojo2_parse_bool};
use daimojo::{Cell, MOJO_DataType, MOJO_INT32_NAN, MOJO_INT64_NAN};

fn int32(t: &str) -> i32 {
    match decode_cell(MOJO_DataType::MOJO_INT32, t) {
        Cell::Int32(v) => v,
        other => panic!("not an i32 cell: {:?}", other),
    }
}

fn int64(t: &str) -> i64 {
    match decode_cell(MOJO_DataType::MOJO_INT64, t) {
        Cell::Int64(v) => v,
        other => panic!("not an i64 cell: {:?}", other),
    }
}

#[test]
fn bool_true_literals() {
    for t in ["true", "True", "TRUE", "1", "1.0"] {
        assert!(mojo2_parse_bool(t), "{t}");
    }
}

#[test]
fn bool_false_literals() {
    for t in ["false", "False", "FALSE", "0", "0.0"] {
        assert!(!mojo2_parse_bool(t), "{t}");
    }
}

#[test]
fn bool_other_text_is_false() {
    for t in ["", "yes", "tRue", "true ", " 1", "2", "1.00", "T"] {
        assert!(!mojo2_parse_bool(t), "{t}");
    }
}

#[test]
fn int32_decodes_decimal_text() {
    assert_eq!(5, int32("5"));
    assert_eq!(-42, int32("-42"));
    assert_eq!(42, int32("+42"));
    assert_eq!(7, int32("007"));
    assert_eq!(i32::MIN, int32("-2147483648"));
    assert_eq!(2147483646, int32("2147483646"));
}

#[test]
fn int32_sentinel_for_unparseable_text() {
    for t in ["", "abc", "1.5", " 5", "5 ", "-", "+", "2147483648", "1_000"] {
        assert_eq!(MOJO_INT32_NAN, int32(t), "{t}");
    }
    assert_eq!(i32::MAX, MOJO_INT32_NAN);
}

#[test]
fn int64_decodes_and_substitutes() {
    assert_eq!(9000000000, int64("9000000000"));
    assert_eq!(-1, int64("-1"));
    assert_eq!(MOJO_INT64_NAN, int64("x"));
    assert_eq!(MOJO_INT64_NAN, int64("9223372036854775808"));
    assert_eq!(i64::MAX, MOJO_INT64_NAN);
}

#[test]
fn text_columns_keep_text() {
    match decode_cell(MOJO_DataType::MOJO_STRING, "a b") {
        Cell::Str(s) => assert_eq!("a b", s),
        other => panic!("{:?}", other),
    }
    match decode_cell(MOJO_DataType::MOJO_DOUBLE, "1.5e3") {
        Cell::Float64Text(s) => assert_eq!("1.5e3", s),
        other => panic!("{:?}", other),
    }
    match decode_cell(MOJO_DataType::MOJO_FLOAT, "x") {
        Cell::Float32Text(s) => assert_eq!("x", s),
        other => panic!("{:?}", other),
    }
}

#[test]
fn encode_values() {
    assert_eq!("true", encode_cell(&Cell::Bool(true)));
    assert_eq!("false", encode_cell(&Cell::Bool(false)));
    assert_eq!("-17", encode_cell(&Cell::Int32(-17)));
    assert_eq!("0", encode_cell(&Cell::Int32(0)));
    assert_eq!("2147483647", encode_cell(&Cell::Int32(MOJO_INT32_NAN)));
    assert_eq!("-9223372036854775808", encode_cell(&Cell::Int64(i64::MIN)));
    assert_eq!("hello", encode_cell(&Cell::Str("hello".to_string())));
}

#[test]
fn decode_encode_round_trip() {
    let cases = [
        (MOJO_DataType::MOJO_INT32, "+0012"),
        (MOJO_DataType::MOJO_INT32, "-300"),
        (MOJO_DataType::MOJO_INT32, "junk"),
        (MOJO_DataType::MOJO_INT64, "123456789012"),
        (MOJO_DataType::MOJO_BOOL, "TRUE"),
        (MOJO_DataType::MOJO_BOOL, "0.0"),
        (MOJO_DataType::MOJO_STRING, "x,y"),
    ];
    for (t, text) in cases {
        let first = decode_cell(t, text);
        let again = decode_cell(t, &encode_cell(&first));
        assert_eq!(format!("{:?}", first), format!("{:?}", again), "{text}");
    }
}

#[test]
fn type_codes() {
    assert_eq!(MOJO_DataType::MOJO_UNKNOWN, MOJO_DataType::from_code(0));
    assert_eq!(MOJO_DataType::MOJO_BOOL, MOJO_DataType::from_code(1));
    assert_eq!(MOJO_DataType::MOJO_INT32, MOJO_DataType::from_code(2));
    assert_eq!(MOJO_DataType::MOJO_INT64, MOJO_DataType::from_code(3));
    assert_eq!(MOJO_DataType::MOJO_FLOAT, MOJO_DataType::from_code(4));
    assert_eq!(MOJO_DataType::MOJO_DOUBLE, MOJO_DataType::from_code(5));
    assert_eq!(MOJO_DataType::MOJO_STRING, MOJO_DataType::from_code(6));
    assert_eq!(MOJO_DataType::MOJO_UNKNOWN, MOJO_DataType::from_code(7));
    assert_eq!(MOJO_DataType::MOJO_UNKNOWN, MOJO_DataType::from_code(-1));
    assert!(!MOJO_DataType::MOJO_UNKNOWN.is_supported());
    assert!(MOJO_DataType::MOJO_STRING.is_supported());
}
