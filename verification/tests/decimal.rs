use rust_axum_server::biz::decimal::{integer_text, magnitude_text, parse_int, IntErrorKind, IntTarget};
use std::num::IntErrorKind as StdKind;

fn std_parse(s: &str, t: IntTarget) -> Result<i64, IntErrorKind> {
    let map = |k: &StdKind| match k {
        StdKind::Empty => IntErrorKind::Empty,
        StdKind::InvalidDigit => IntErrorKind::InvalidDigit,
        StdKind::PosOverflow => IntErrorKind::PosOverflow,
        StdKind::NegOverflow => IntErrorKind::NegOverflow,
        _ => panic!("unexpected kind"),
    };
    match t {
        IntTarget::U8 => s.parse::<u8>().map(|v| v as i64).map_err(|e| map(e.kind())),
        IntTarget::U16 => s.parse::<u16>().map(|v| v as i64).map_err(|e| map(e.kind())),
        IntTarget::I64 => s.parse::<i64>().map_err(|e| map(e.kind())),
    }
}

#[test]
fn parse_int_agrees_with_std_on_short_texts() {
    let alphabet = ['0', '1', '2', '5', '9', '+', '-', 'a', ' ', '.'];
    let mut texts: Vec<String> = vec![String::new()];
    let mut frontier: Vec<String> = vec![String::new()];
    for _ in 0..4 {
        let mut next = Vec::new();
        for t in &frontier {
            for c in alphabet {
                let mut s = t.clone();
                s.push(c);
                next.push(s);
            }
        }
        texts.extend(next.iter().cloned());
        frontier = next;
    }
    for s in &texts {
        for t in [IntTarget::U8, IntTarget::U16, IntTarget::I64] {
            assert_eq!(parse_int(s, t), std_parse(s, t), "text {:?} as {:?}", s, t);
        }
    }
}

#[test]
fn parse_int_agrees_with_std_at_the_bounds() {
    let texts = [
        "255", "256", "0255", "00000000256", "65535", "65536", "-0", "+0", "-1", "+255",
        "9223372036854775807", "9223372036854775808", "-9223372036854775808",
        "-9223372036854775809", "99999999999999999999999", "-99999999999999999999a",
        "99999999999999999999a", "256a", "25a6", "1é", "é", "+", "-", "++1", "+-1",
        "18446744073709551616",
    ];
    for s in texts {
        for t in [IntTarget::U8, IntTarget::U16, IntTarget::I64] {
            assert_eq!(parse_int(s, t), std_parse(s, t), "text {:?} as {:?}", s, t);
        }
    }
}

#[test]
fn parse_int_exact_values() {
    assert_eq!(parse_int("42", IntTarget::U8), Ok(42));
    assert_eq!(parse_int("+7", IntTarget::U16), Ok(7));
    assert_eq!(parse_int("-12", IntTarget::I64), Ok(-12));
    assert_eq!(parse_int("-12", IntTarget::U8), Err(IntErrorKind::InvalidDigit));
    assert_eq!(parse_int("", IntTarget::U8), Err(IntErrorKind::Empty));
    assert_eq!(parse_int("300", IntTarget::U8), Err(IntErrorKind::PosOverflow));
    assert_eq!(parse_int("-9223372036854775809", IntTarget::I64), Err(IntErrorKind::NegOverflow));
    assert_eq!(parse_int("-9223372036854775808", IntTarget::I64), Ok(i64::MIN));
    // an overflow met before a bad character is reported as the overflow
    assert_eq!(parse_int("999x", IntTarget::U8), Err(IntErrorKind::PosOverflow));
    assert_eq!(parse_int("99x", IntTarget::U8), Err(IntErrorKind::InvalidDigit));
}

#[test]
fn integer_text_agrees_with_to_string() {
    for v in [0i64, 1, 9, 10, 99, 100, 255, -1, -10, 12345, i64::MAX, i64::MIN] {
        assert_eq!(integer_text(v), v.to_string());
    }
    for v in [0u64, 7, 10, 65535, u64::MAX] {
        assert_eq!(magnitude_text(v), v.to_string());
    }
}

#[test]
fn integer_text_reads_back() {
    for v in [0i64, 3, 200, 255] {
        assert_eq!(parse_int(&integer_text(v), IntTarget::U8), Ok(v));
    }
    for v in [i64::MIN, -1, 0, 1, i64::MAX] {
        assert_eq!(parse_int(&integer_text(v), IntTarget::I64), Ok(v));
    }
}

#[test]
fn messages_match_parse_int_error_display() {
    let cases = [
        ("", IntErrorKind::Empty),
        ("x", IntErrorKind::InvalidDigit),
        ("300", IntErrorKind::PosOverflow),
    ];
    for (text, kind) in cases {
        let std_message = text.parse::<u8>().unwrap_err().to_string();
        assert_eq!(kind.message(), std_message);
    }
    let neg = "-9223372036854775809".parse::<i64>().unwrap_err().to_string();
    assert_eq!(IntErrorKind::NegOverflow.message(), neg);
    assert_eq!(IntTarget::U8.name(), "u8");
    assert_eq!(IntTarget::U16.name(), "u16");
    assert_eq!(IntTarget::I64.name(), "i64");
}
