//! Numeric fields that arrive either as JSON numbers or as text.
//!
//! A query string carries every value as text, and a JSON body may carry a
//! number as a number or as text; both read into the same optional integer.
//! An absent value, a `null` and an empty text all mean "no number".
use vstd::prelude::*;
use crate::biz::decimal::{
    IntErrorKind, IntTarget, all_digits, digits_value, in_target, lemma_parse_all_digits,
    lemma_parse_leading_zeros, lemma_parse_sign, target_signed, zeros, int_error_text, int_text, integer_text,
    lemma_parse_int_text, parse_int, spec_parse_int, target_max, target_name,
};

verus! {

/// A JSON number as the JSON reader keeps it: a non-negative integer, a
/// negative integer, or a float, held as the text that the reader writes
/// for it (the shortest text that reads back as the same `f64`).
#[derive(Clone, Debug, PartialEq, Eq)]
pub enum JsonNumber {
    PosInt(u64),
    NegInt(i64),
    Float(String),
}

/// A JSON value, reduced to what reading a numeric field looks at.
#[derive(Clone, Debug, PartialEq, Eq)]
pub enum JsonValue {
    Null,
    Bool(bool),
    Number(JsonNumber),
    String(String),
    Array,
    Object,
}

/// Why a value cannot be read as the numeric field.
#[derive(Clone, Debug, PartialEq, Eq)]
pub enum NumberFieldError {
    BooleanNotSupported,
    ArrayNotSupported,
    ObjectNotSupported,
    /// The text is not an integer of the target type.
    InvalidText(IntErrorKind),
    /// A non-negative JSON integer that the target type cannot hold.
    UnsignedOutOfRange(u64, IntTarget),
    /// A JSON integer given as signed that the target type cannot hold.
    SignedOutOfRange(i64, IntTarget),
    /// A JSON float, which no integer field accepts; it holds the float's text.
    FloatNotInteger(String, IntTarget),
}

/// What reading `v` as an optional integer of type `t` gives.
pub open spec fn spec_deserialize(v: JsonValue, t: IntTarget) -> Result<
    Option<int>,
    NumberFieldError,
> {
    match v {
        JsonValue::Null => Ok(None),
        JsonValue::Bool(_) => Err(NumberFieldError::BooleanNotSupported),
        JsonValue::String(s) => {
            if s@.len() == 0 {
                Ok(None)
            } else {
                match spec_parse_int(s@, t) {
                    Ok(n) => Ok(Some(n)),
                    Err(k) => Err(NumberFieldError::InvalidText(k)),
                }
            }
        },
        JsonValue::Number(JsonNumber::PosInt(u)) => {
            if u <= target_max(t) {
                Ok(Some(u as int))
            } else {
                Err(NumberFieldError::UnsignedOutOfRange(u, t))
            }
        },
        JsonValue::Number(JsonNumber::NegInt(i)) => {
            if in_target(t, i as int) {
                Ok(Some(i as int))
            } else {
                Err(NumberFieldError::SignedOutOfRange(i, t))
            }
        },
        JsonValue::Number(JsonNumber::Float(x)) => Err(NumberFieldError::FloatNotInteger(x, t)),
        JsonValue::Array => Err(NumberFieldError::ArrayNotSupported),
        JsonValue::Object => Err(NumberFieldError::ObjectNotSupported),
    }
}

pub open spec fn as_spec_result(r: Result<Option<i64>, NumberFieldError>) -> Result<
    Option<int>,
    NumberFieldError,
> {
    match r {
        Ok(Some(v)) => Ok(Some(v as int)),
        Ok(None) => Ok(None),
        Err(e) => Err(e),
    }
}

/// The JSON value that writing the optional integer `number` gives.
pub open spec fn spec_serialize(number: Option<i64>) -> JsonValue {
    match number {
        None => JsonValue::Null,
        Some(v) => if v >= 0 {
            JsonValue::Number(JsonNumber::PosInt(v as u64))
        } else {
            JsonValue::Number(JsonNumber::NegInt(v))
        },
    }
}

/// Reads `value` as an optional integer of type `t`.
pub fn deserialize(value: JsonValue, t: IntTarget) -> (r: Result<Option<i64>, NumberFieldError>)
    ensures
        as_spec_result(r) == spec_deserialize(value, t),
        r matches Ok(Some(v)) ==> in_target(t, v as int),
        value matches JsonValue::Number(JsonNumber::PosInt(u)) ==> (r matches Ok(Some(v)) ==> v
            == u),
        value matches JsonValue::Number(JsonNumber::NegInt(i)) ==> (r matches Ok(Some(v)) ==> v
            == i),
        value matches JsonValue::Number(JsonNumber::NegInt(i)) ==> (r is Ok <==> in_target(
            t,
            i as int,
        )),
        value matches JsonValue::Number(JsonNumber::PosInt(u)) ==> (r is Ok <==> u
            <= target_max(t)),
{
    let max: u64 = match t {
        IntTarget::U8 => 255,
        IntTarget::U16 => 65535,
        IntTarget::I64 => 0x7fff_ffff_ffff_ffff,
    };
    match value {
        JsonValue::Null => Ok(None),
        JsonValue::Bool(_) => Err(NumberFieldError::BooleanNotSupported),
        JsonValue::String(s) => {
            if s.as_str().is_empty() {
                Ok(None)
            } else {
                match parse_int(s.as_str(), t) {
                    Ok(n) => Ok(Some(n)),
                    Err(k) => Err(NumberFieldError::InvalidText(k)),
                }
            }
        },
        JsonValue::Number(JsonNumber::PosInt(u)) => {
            if u <= max {
                Ok(Some(u as i64))
            } else {
                Err(NumberFieldError::UnsignedOutOfRange(u, t))
            }
        },
        JsonValue::Number(JsonNumber::NegInt(i)) => {
            let fits = match t {
                IntTarget::U8 => 0 <= i && i <= 255,
                IntTarget::U16 => 0 <= i && i <= 65535,
                IntTarget::I64 => true,
            };
            if fits {
                Ok(Some(i))
            } else {
                Err(NumberFieldError::SignedOutOfRange(i, t))
            }
        },
        JsonValue::Number(JsonNumber::Float(x)) => Err(NumberFieldError::FloatNotInteger(x, t)),
        JsonValue::Array => Err(NumberFieldError::ArrayNotSupported),
        JsonValue::Object => Err(NumberFieldError::ObjectNotSupported),
    }
}

/// Writes the optional integer `number` as a JSON value: `null` or a number.
pub fn serialize(number: Option<i64>) -> (r: JsonValue)
    ensures
        r == spec_serialize(number),
{
    match number {
        None => JsonValue::Null,
        Some(v) => if v >= 0 {
            JsonValue::Number(JsonNumber::PosInt(v as u64))
        } else {
            JsonValue::Number(JsonNumber::NegInt(v))
        },
    }
}

/// Reads `value` as an optional `u8` field.
pub fn deserialize_u8(value: JsonValue) -> (r: Result<Option<u8>, NumberFieldError>)
    ensures
        as_spec_result(
            match r {
                Ok(Some(v)) => Ok(Some(v as i64)),
                Ok(None) => Ok(None),
                Err(e) => Err(e),
            },
        ) == spec_deserialize(value, IntTarget::U8),
{
    match deserialize(value, IntTarget::U8) {
        Ok(Some(v)) => Ok(Some(v as u8)),
        Ok(None) => Ok(None),
        Err(e) => Err(e),
    }
}

/// Reads `value` as an optional `u16` field.
pub fn deserialize_u16(value: JsonValue) -> (r: Result<Option<u16>, NumberFieldError>)
    ensures
        as_spec_result(
            match r {
                Ok(Some(v)) => Ok(Some(v as i64)),
                Ok(None) => Ok(None),
                Err(e) => Err(e),
            },
        ) == spec_deserialize(value, IntTarget::U16),
{
    match deserialize(value, IntTarget::U16) {
        Ok(Some(v)) => Ok(Some(v as u16)),
        Ok(None) => Ok(None),
        Err(e) => Err(e),
    }
}

/// Reads `value` as an optional `i64` field.
pub fn deserialize_i64(value: JsonValue) -> (r: Result<Option<i64>, NumberFieldError>)
    ensures
        as_spec_result(r) == spec_deserialize(value, IntTarget::I64),
{
    deserialize(value, IntTarget::I64)
}

/// A field written by `serialize` reads back as the same optional integer,
/// for every value that the field's type can hold.
pub proof fn lemma_serialize_then_deserialize(number: Option<i64>, t: IntTarget)
    requires
        number matches Some(v) ==> in_target(t, v as int),
    ensures
        spec_deserialize(spec_serialize(number), t) == match number {
            Some(v) => Ok::<Option<int>, NumberFieldError>(Some(v as int)),
            None => Ok::<Option<int>, NumberFieldError>(None),
        },
{
}

/// The decimal text of any value that the field's type can hold reads back
/// as that value; this is how a query string carries a number.
pub proof fn lemma_text_then_deserialize(s: String, v: int, t: IntTarget)
    requires
        in_target(t, v),
        s@ == int_text(v),
    ensures
        spec_deserialize(JsonValue::String(s), t) == Ok::<Option<int>, NumberFieldError>(Some(v)),
{
    lemma_parse_int_text(v, t);
    crate::biz::decimal::lemma_int_text_nonempty(v);
}


/// The message of each error, as the field's reader reports it.
pub open spec fn spec_message(e: NumberFieldError) -> Seq<char> {
    match e {
        NumberFieldError::BooleanNotSupported => "boolean values are not supported"@,
        NumberFieldError::ArrayNotSupported => "arrays are not supported"@,
        NumberFieldError::ObjectNotSupported => "objects are not supported"@,
        NumberFieldError::InvalidText(k) => int_error_text(k),
        NumberFieldError::UnsignedOutOfRange(u, t) => "invalid value: integer `"@ + int_text(
            u as int,
        ) + "`, expected "@ + target_name(t),
        NumberFieldError::SignedOutOfRange(i, t) => "invalid value: integer `"@ + int_text(
            i as int,
        ) + "`, expected "@ + target_name(t),
        NumberFieldError::FloatNotInteger(x, t) => "invalid type: floating point `"@ + x@
            + "`, expected "@ + target_name(t),
    }
}

impl NumberFieldError {
    /// The message of this error.
    pub fn message(&self) -> (r: String)
        ensures
            r@ == spec_message(*self),
    {
        match self {
            NumberFieldError::BooleanNotSupported => String::from_str(
                "boolean values are not supported",
            ),
            NumberFieldError::ArrayNotSupported => String::from_str("arrays are not supported"),
            NumberFieldError::ObjectNotSupported => String::from_str("objects are not supported"),
            NumberFieldError::InvalidText(k) => String::from_str(k.message()),
            NumberFieldError::UnsignedOutOfRange(u, t) => {
                let mut m = String::from_str("invalid value: integer `");
                m.append(crate::biz::decimal::magnitude_text(*u).as_str());
                m.append("`, expected ");
                m.append(t.name());
                m
            },
            NumberFieldError::SignedOutOfRange(i, t) => {
                let mut m = String::from_str("invalid value: integer `");
                m.append(integer_text(*i).as_str());
                m.append("`, expected ");
                m.append(t.name());
                m
            },
            NumberFieldError::FloatNotInteger(x, t) => {
                let mut m = String::from_str("invalid type: floating point `");
                m.append(x.as_str());
                m.append("`, expected ");
                m.append(t.name());
                m
            },
        }
    }
}


/// A field given as a JSON number and the same field given as that number's
/// decimal text read alike, for every value that the field's type can hold.
pub proof fn lemma_number_and_text_agree(v: i64, s: String, t: IntTarget)
    requires
        in_target(t, v as int),
        s@ == int_text(v as int),
    ensures
        spec_deserialize(JsonValue::String(s), t) == spec_deserialize(spec_serialize(Some(v)), t),
{
    lemma_text_then_deserialize(s, v as int, t);
    lemma_serialize_then_deserialize(Some(v), t);
}


/// A JSON integer is read exactly: the field takes the integer itself when
/// its type can hold it, and refuses it otherwise; a negative integer is
/// never read by an unsigned field.
pub proof fn lemma_json_integer_read_exactly(n: JsonNumber, t: IntTarget)
    ensures
        n matches JsonNumber::PosInt(u) ==> (spec_deserialize(JsonValue::Number(n), t) is Ok
            <==> u <= target_max(t)),
        n matches JsonNumber::NegInt(i) ==> (spec_deserialize(JsonValue::Number(n), t) is Ok
            <==> in_target(t, i as int)),
        n matches JsonNumber::PosInt(u) ==> (spec_deserialize(JsonValue::Number(n), t) matches Ok(
            Some(v),
        ) ==> v == u),
        n matches JsonNumber::NegInt(i) ==> (spec_deserialize(JsonValue::Number(n), t) matches Ok(
            Some(v),
        ) ==> v == i),
        n matches JsonNumber::NegInt(i) && i < 0 && !target_signed(t) ==> spec_deserialize(
            JsonValue::Number(n),
            t,
        ) is Err,
        n is Float ==> spec_deserialize(JsonValue::Number(n), t) is Err,
{
}

/// A text of digits is read as the number that it writes, leading zeros
/// and all, when the field's type can hold it.
pub proof fn lemma_digit_text_read(s: String, t: IntTarget)
    requires
        s@.len() > 0,
        all_digits(s@),
        digits_value(s@) <= target_max(t),
    ensures
        spec_deserialize(JsonValue::String(s), t) == Ok::<Option<int>, NumberFieldError>(
            Some(digits_value(s@)),
        ),
{
    lemma_parse_all_digits(s@, t);
}

/// Leading zeros in a text field do not change what it reads as.
pub proof fn lemma_text_leading_zeros(padded: String, plain: String, k: nat, t: IntTarget)
    requires
        plain@.len() > 0,
        all_digits(plain@),
        padded@ == zeros(k) + plain@,
    ensures
        spec_deserialize(JsonValue::String(padded), t) == spec_deserialize(
            JsonValue::String(plain),
            t,
        ),
{
    lemma_parse_leading_zeros(k, plain@, t);
}

/// A text field reads as a negative number only when it starts with `-` and
/// the field is signed; whatever it reads as fits the field's type.
pub proof fn lemma_text_read_sign(s: String, t: IntTarget)
    ensures
        spec_deserialize(JsonValue::String(s), t) matches Ok(Some(v)) ==> in_target(t, v) && (v < 0
            ==> s@[0] == '-' && target_signed(t)),
{
    lemma_parse_sign(s@, t);
}


/// A null and an empty text read as no number; a boolean, an array, an
/// object and a float are refused.
pub proof fn lemma_absent_and_refused(s: String, b: bool, x: String, t: IntTarget)
    requires
        s@.len() == 0,
    ensures
        spec_deserialize(JsonValue::Null, t) == Ok::<Option<int>, NumberFieldError>(None),
        spec_deserialize(JsonValue::String(s), t) == Ok::<Option<int>, NumberFieldError>(None),
        spec_deserialize(JsonValue::Bool(b), t) is Err,
        spec_deserialize(JsonValue::Array, t) is Err,
        spec_deserialize(JsonValue::Object, t) is Err,
        spec_deserialize(JsonValue::Number(JsonNumber::Float(x)), t) is Err,
{
}

} // verus!
