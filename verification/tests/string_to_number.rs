use rust_axum_server::biz::decimal::{IntErrorKind, IntTarget};
use rust_axum_server::biz::string_to_number::{
    deserialize, deserialize_i64, deserialize_u16, deserialize_u8, serialize, JsonNumber, JsonValue,
    NumberFieldError,
};

fn float_text(f: f64) -> String {
    serde_json::Number::from_f64(f).unwrap().to_string()
}

fn text(s: &str) -> JsonValue {
    JsonValue::String(s.to_string())
}

#[test]
fn absent_values_read_as_none() {
    assert_eq!(deserialize(JsonValue::Null, IntTarget::U8), Ok(None));
    assert_eq!(deserialize(text(""), IntTarget::U16), Ok(None));
}

#[test]
fn text_reads_as_number() {
    assert_eq!(deserialize_u8(text("4")), Ok(Some(4u8)));
    assert_eq!(deserialize_u16(text("354757")), Err(NumberFieldError::InvalidText(IntErrorKind::PosOverflow)));
    assert_eq!(deserialize_i64(text("354757")), Ok(Some(354757)));
    assert_eq!(deserialize_u8(text("abc")), Err(NumberFieldError::InvalidText(IntErrorKind::InvalidDigit)));
}

#[test]
fn numbers_are_range_checked() {
    assert_eq!(deserialize_u8(JsonValue::Number(JsonNumber::PosInt(255))), Ok(Some(255)));
    assert_eq!(
        deserialize_u8(JsonValue::Number(JsonNumber::PosInt(256))),
        Err(NumberFieldError::UnsignedOutOfRange(256, IntTarget::U8))
    );
    assert_eq!(
        deserialize_u16(JsonValue::Number(JsonNumber::NegInt(-1))),
        Err(NumberFieldError::SignedOutOfRange(-1, IntTarget::U16))
    );
    assert_eq!(deserialize_i64(JsonValue::Number(JsonNumber::NegInt(-5))), Ok(Some(-5)));
    assert_eq!(
        deserialize_i64(JsonValue::Number(JsonNumber::PosInt(u64::MAX))),
        Err(NumberFieldError::UnsignedOutOfRange(u64::MAX, IntTarget::I64))
    );
    assert_eq!(
        deserialize_u8(JsonValue::Number(JsonNumber::Float("1.5".to_string()))),
        Err(NumberFieldError::FloatNotInteger("1.5".to_string(), IntTarget::U8))
    );
}

#[test]
fn other_kinds_are_refused() {
    assert_eq!(deserialize_u8(JsonValue::Bool(true)), Err(NumberFieldError::BooleanNotSupported));
    assert_eq!(deserialize_u8(JsonValue::Array), Err(NumberFieldError::ArrayNotSupported));
    assert_eq!(deserialize_u8(JsonValue::Object), Err(NumberFieldError::ObjectNotSupported));
}

#[test]
fn serialize_then_deserialize_round_trips() {
    for v in [None, Some(0i64), Some(10), Some(255)] {
        assert_eq!(deserialize(serialize(v), IntTarget::U8), Ok(v));
    }
    for v in [None, Some(i64::MIN), Some(-1), Some(i64::MAX)] {
        assert_eq!(deserialize(serialize(v), IntTarget::I64), Ok(v));
    }
    assert_eq!(serialize(Some(-3)), JsonValue::Number(JsonNumber::NegInt(-3)));
    assert_eq!(serialize(Some(3)), JsonValue::Number(JsonNumber::PosInt(3)));
    assert_eq!(serialize(None), JsonValue::Null);
}

#[test]
fn messages_match_the_json_reader() {
    // the messages that serde_json gives when it reads these numbers as the field's type
    let cases: Vec<(NumberFieldError, String)> = vec![
        (
            NumberFieldError::UnsignedOutOfRange(300, IntTarget::U8),
            serde_json::from_str::<u8>("300").unwrap_err().to_string(),
        ),
        (
            NumberFieldError::SignedOutOfRange(-1, IntTarget::U16),
            serde_json::from_str::<u16>("-1").unwrap_err().to_string(),
        ),
        (
            NumberFieldError::FloatNotInteger(float_text(1.5), IntTarget::U8),
            serde_json::from_str::<u8>("1.5").unwrap_err().to_string(),
        ),
        (
            NumberFieldError::FloatNotInteger(float_text(1e20), IntTarget::I64),
            serde_json::from_str::<i64>("1e20").unwrap_err().to_string(),
        ),
    ];
    for (e, full) in cases {
        assert!(full.starts_with(&e.message()), "{:?}: {} vs {}", e, e.message(), full);
    }
    assert_eq!(NumberFieldError::BooleanNotSupported.message(), "boolean values are not supported");
    assert_eq!(NumberFieldError::ArrayNotSupported.message(), "arrays are not supported");
    assert_eq!(NumberFieldError::ObjectNotSupported.message(), "objects are not supported");
    assert_eq!(
        NumberFieldError::InvalidText(IntErrorKind::InvalidDigit).message(),
        "invalid digit found in string"
    );
    assert_eq!(
        NumberFieldError::FloatNotInteger(float_text(2.0), IntTarget::U16).message(),
        "invalid type: floating point `2.0`, expected u16"
    );
}
