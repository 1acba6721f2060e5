//! Decimal integer text, read the way Rust's `FromStr` for integers reads it.
use vstd::prelude::*;

verus! {

/// The integer types that a numeric field can be read into.
#[derive(Clone, Copy, Debug, PartialEq, Eq, Structural)]
pub enum IntTarget {
    U8,
    U16,
    I64,
}

/// Why a text is not an integer of the target type, as `ParseIntError` tells it.
#[derive(Clone, Copy, Debug, PartialEq, Eq, Structural)]
pub enum IntErrorKind {
    Empty,
    InvalidDigit,
    PosOverflow,
    NegOverflow,
}

/// Smallest value of the target type.
pub open spec fn target_min(t: IntTarget) -> int {
    match t {
        IntTarget::U8 => 0,
        IntTarget::U16 => 0,
        IntTarget::I64 => i64::MIN as int,
    }
}

/// Largest value of the target type.
pub open spec fn target_max(t: IntTarget) -> int {
    match t {
        IntTarget::U8 => u8::MAX as int,
        IntTarget::U16 => u16::MAX as int,
        IntTarget::I64 => i64::MAX as int,
    }
}

pub open spec fn target_signed(t: IntTarget) -> bool {
    t is I64
}

pub open spec fn in_target(t: IntTarget, v: int) -> bool {
    target_min(t) <= v <= target_max(t)
}

pub open spec fn is_digit(c: char) -> bool {
    '0' <= c && c <= '9'
}

pub open spec fn digit_value(c: char) -> int {
    c as int - '0' as int
}

/// The number that a string of decimal digits denotes.
pub open spec fn digits_value(s: Seq<char>) -> int
    decreases s.len(),
{
    if s.len() == 0 {
        0
    } else {
        digits_value(s.drop_last()) * 10 + digit_value(s.last())
    }
}

/// Index of the first character at or after `i` that is not a decimal digit
/// (the length of `s` when there is none).
pub open spec fn digit_run(s: Seq<char>, i: int) -> int
    decreases s.len() - i,
{
    if i >= s.len() {
        s.len() as int
    } else if !is_digit(s[i]) {
        i
    } else {
        digit_run(s, i + 1)
    }
}

/// The magnitude written by `digits` (what follows the sign).
///
/// The text is read from the left: the first non-digit makes it invalid,
/// unless the digits before it already exceed `bound`, which is an overflow.
pub open spec fn spec_magnitude(digits: Seq<char>, bound: int, overflow: IntErrorKind) -> Result<
    int,
    IntErrorKind,
> {
    let k = digit_run(digits, 0);
    let v = digits_value(digits.take(k));
    if v > bound {
        Err(overflow)
    } else if k < digits.len() {
        Err(IntErrorKind::InvalidDigit)
    } else {
        Ok(v)
    }
}

/// What `str::parse` gives for `s` as an integer of type `t`.
pub open spec fn spec_parse_int(s: Seq<char>, t: IntTarget) -> Result<int, IntErrorKind> {
    if s.len() == 0 {
        Err(IntErrorKind::Empty)
    } else if s.len() == 1 && (s[0] == '+' || s[0] == '-') {
        Err(IntErrorKind::InvalidDigit)
    } else if s[0] == '-' && target_signed(t) {
        match spec_magnitude(s.drop_first(), -target_min(t), IntErrorKind::NegOverflow) {
            Ok(m) => Ok(-m),
            Err(e) => Err(e),
        }
    } else if s[0] == '+' {
        spec_magnitude(s.drop_first(), target_max(t), IntErrorKind::PosOverflow)
    } else {
        spec_magnitude(s, target_max(t), IntErrorKind::PosOverflow)
    }
}

pub open spec fn as_int_result(r: Result<i64, IntErrorKind>) -> Result<int, IntErrorKind> {
    match r {
        Ok(v) => Ok(v as int),
        Err(e) => Err(e),
    }
}

proof fn lemma_digits_value_step(s: Seq<char>, i: int)
    requires
        0 <= i < s.len(),
    ensures
        digits_value(s.take(i + 1)) == digits_value(s.take(i)) * 10 + digit_value(s[i]),
{
    assert(s.take(i + 1).drop_last() =~= s.take(i));
}

proof fn lemma_digits_value_nonneg(s: Seq<char>)
    requires
        forall|j: int| 0 <= j < s.len() ==> is_digit(#[trigger] s[j]),
    ensures
        digits_value(s) >= 0,
    decreases s.len(),
{
    if s.len() > 0 {
        lemma_digits_value_nonneg(s.drop_last());
    }
}

/// Over a run of digits, a longer prefix denotes a number at least as large.
proof fn lemma_digits_value_monotone(s: Seq<char>, i: int, j: int)
    requires
        0 <= i <= j <= s.len(),
        forall|m: int| 0 <= m < j ==> is_digit(#[trigger] s[m]),
    ensures
        digits_value(s.take(i)) <= digits_value(s.take(j)),
    decreases j - i,
{
    if i < j {
        lemma_digits_value_monotone(s, i, j - 1);
        lemma_digits_value_step(s, j - 1);
        lemma_digits_value_nonneg(s.take(j - 1));
    }
}

proof fn lemma_digit_run_bounds(s: Seq<char>, i: int)
    requires
        0 <= i <= s.len(),
    ensures
        i <= digit_run(s, i) <= s.len(),
        forall|m: int| i <= m < digit_run(s, i) ==> is_digit(#[trigger] s[m]),
        digit_run(s, i) < s.len() ==> !is_digit(s[digit_run(s, i)]),
    decreases s.len() - i,
{
    if i < s.len() && is_digit(s[i]) {
        lemma_digit_run_bounds(s, i + 1);
    }
}

proof fn lemma_digit_run_skip(s: Seq<char>, i: int)
    requires
        0 <= i <= s.len(),
        forall|m: int| 0 <= m < i ==> is_digit(#[trigger] s[m]),
    ensures
        digit_run(s, 0) == digit_run(s, i),
    decreases i,
{
    if i > 0 {
        lemma_digit_run_skip(s, i - 1);
        assert(is_digit(s[i - 1]));
    }
}

/// Reads the digits of `digits` into a magnitude no larger than `bound`.
fn parse_magnitude(digits: &str, bound: u64, overflow: IntErrorKind) -> (r: Result<u64, IntErrorKind>)
    ensures
        spec_magnitude(digits@, bound as int, overflow) == match r {
            Ok(m) => Ok::<int, IntErrorKind>(m as int),
            Err(e) => Err::<int, IntErrorKind>(e),
        },
{
    let n = digits.unicode_len();
    let mut acc: u64 = 0;
    let mut i: usize = 0;
    while i < n
        invariant
            n == digits@.len(),
            i <= n,
            forall|m: int| 0 <= m < i ==> is_digit(#[trigger] digits@[m]),
            acc as int == digits_value(digits@.take(i as int)),
            acc <= bound,
        decreases n - i,
    {
        let c = digits.get_char(i);
        proof {
            lemma_digit_run_skip(digits@, i as int);
            lemma_digit_run_bounds(digits@, i as int);
        }
        if !('0' <= c && c <= '9') {
            assert(digit_run(digits@, i as int) == i);
            return Err(IntErrorKind::InvalidDigit);
        }
        let d = (c as u32 - '0' as u32) as u64;
        proof {
            lemma_digits_value_step(digits@, i as int);
        }
        let next: u128 = acc as u128 * 10 + d as u128;
        if next > bound as u128 {
            proof {
                assert(digit_run(digits@, i as int) == digit_run(digits@, i + 1));
                lemma_digit_run_bounds(digits@, i + 1);
                lemma_digits_value_monotone(
                    digits@,
                    i + 1,
                    digit_run(digits@, 0),
                );
            }
            return Err(overflow);
        }
        acc = next as u64;
        i = i + 1;
    }
    proof {
        lemma_digit_run_skip(digits@, n as int);
        assert(digits@.take(n as int) =~= digits@);
    }
    Ok(acc)
}


/// Reads `s` as an integer of type `t`, as `s.parse::<u8>()`, `s.parse::<u16>()`
/// or `s.parse::<i64>()` does.
pub fn parse_int(s: &str, t: IntTarget) -> (r: Result<i64, IntErrorKind>)
    ensures
        as_int_result(r) == spec_parse_int(s@, t),
        r matches Ok(v) ==> in_target(t, v as int),
        s@.len() > 0 && all_digits(s@) && digits_value(s@) <= target_max(t) ==> r == Ok::<
            i64,
            IntErrorKind,
        >(digits_value(s@) as i64),
{
    proof {
        if s@.len() > 0 && all_digits(s@) && digits_value(s@) <= target_max(t) {
            lemma_parse_all_digits(s@, t);
        }
    }
    let n = s.unicode_len();
    if n == 0 {
        return Err(IntErrorKind::Empty);
    }
    let first = s.get_char(0);
    if n == 1 && (first == '+' || first == '-') {
        return Err(IntErrorKind::InvalidDigit);
    }
    let max: u64 = match t {
        IntTarget::U8 => 255,
        IntTarget::U16 => 65535,
        IntTarget::I64 => 0x7fff_ffff_ffff_ffff,
    };
    if first == '-' && t == IntTarget::I64 {
        let rest = s.substring_char(1, n);
        assert(rest@ =~= s@.drop_first());
        match parse_magnitude(rest, 0x8000_0000_0000_0000, IntErrorKind::NegOverflow) {
            Ok(m) => {
                if m == 0x8000_0000_0000_0000 {
                    Ok(i64::MIN)
                } else {
                    Ok(-(m as i64))
                }
            },
            Err(e) => Err(e),
        }
    } else if first == '+' {
        let rest = s.substring_char(1, n);
        assert(rest@ =~= s@.drop_first());
        match parse_magnitude(rest, max, IntErrorKind::PosOverflow) {
            Ok(m) => Ok(m as i64),
            Err(e) => Err(e),
        }
    } else {
        match parse_magnitude(s, max, IntErrorKind::PosOverflow) {
            Ok(m) => Ok(m as i64),
            Err(e) => Err(e),
        }
    }
}


/// The character of decimal digit `d`.
pub open spec fn digit_char(d: int) -> char {
    (('0' as int) + d) as char
}

/// The decimal text of a natural number, with no leading zeros.
pub open spec fn decimal_text(n: nat) -> Seq<char>
    decreases n,
{
    if n < 10 {
        seq![digit_char(n as int)]
    } else {
        decimal_text(n / 10) + seq![digit_char((n % 10) as int)]
    }
}

/// The decimal text of an integer: a `-` before the magnitude of a negative one.
pub open spec fn int_text(v: int) -> Seq<char> {
    if v < 0 {
        seq!['-'] + decimal_text((-v) as nat)
    } else {
        decimal_text(v as nat)
    }
}

proof fn lemma_decimal_text(n: nat)
    ensures
        decimal_text(n).len() >= 1,
        forall|j: int| 0 <= j < decimal_text(n).len() ==> is_digit(#[trigger] decimal_text(n)[j]),
        digits_value(decimal_text(n)) == n,
    decreases n,
{
    if n < 10 {
        let s = decimal_text(n);
        assert(s.drop_last() =~= Seq::<char>::empty());
        assert(digit_value(s.last()) == n);
        assert(digits_value(s.drop_last()) == 0);
        assert(digits_value(s) == n);
    } else {
        lemma_decimal_text(n / 10);
        let s = decimal_text(n);
        assert(s.drop_last() =~= decimal_text(n / 10));
        assert(s.last() == digit_char((n % 10) as int));
        assert(digit_value(s.last()) == n % 10);
        assert(digits_value(s) == digits_value(s.drop_last()) * 10 + digit_value(s.last()));
        assert((n / 10) * 10 + n % 10 == n);
        assert(digits_value(s) == n);
    }
}

proof fn lemma_magnitude_of_digits(s: Seq<char>, bound: int, overflow: IntErrorKind)
    requires
        forall|j: int| 0 <= j < s.len() ==> is_digit(#[trigger] s[j]),
        digits_value(s) <= bound,
    ensures
        spec_magnitude(s, bound, overflow) == Ok::<int, IntErrorKind>(digits_value(s)),
{
    lemma_digit_run_skip(s, s.len() as int);
    assert(s.take(s.len() as int) =~= s);
}

/// Reading back the decimal text of any value of the target type gives that value.
pub proof fn lemma_parse_int_text(v: int, t: IntTarget)
    requires
        in_target(t, v),
    ensures
        spec_parse_int(int_text(v), t) == Ok::<int, IntErrorKind>(v),
{
    if v < 0 {
        let m = (-v) as nat;
        lemma_decimal_text(m);
        let s = int_text(v);
        assert(s.drop_first() =~= decimal_text(m));
        lemma_magnitude_of_digits(decimal_text(m), -target_min(t), IntErrorKind::NegOverflow);
    } else {
        lemma_decimal_text(v as nat);
        lemma_magnitude_of_digits(decimal_text(v as nat), target_max(t), IntErrorKind::PosOverflow);
    }
}

/// The one-character text of decimal digit `d`.
fn digit_str(d: u64) -> (r: &'static str)
    requires
        d < 10,
    ensures
        r@ == seq![digit_char(d as int)],
{
    proof {
        reveal_strlit("0");
        reveal_strlit("1");
        reveal_strlit("2");
        reveal_strlit("3");
        reveal_strlit("4");
        reveal_strlit("5");
        reveal_strlit("6");
        reveal_strlit("7");
        reveal_strlit("8");
        reveal_strlit("9");
    }
    match d {
        0 => "0",
        1 => "1",
        2 => "2",
        3 => "3",
        4 => "4",
        5 => "5",
        6 => "6",
        7 => "7",
        8 => "8",
        _ => "9",
    }
}

/// The decimal text of `n`.
pub fn magnitude_text(n: u64) -> (r: String)
    ensures
        r@ == decimal_text(n as nat),
    decreases n,
{
    if n < 10 {
        String::from_str(digit_str(n))
    } else {
        let mut s = magnitude_text(n / 10);
        s.append(digit_str(n % 10));
        s
    }
}

/// The decimal text of `v`, as `v.to_string()` writes it.
pub fn integer_text(v: i64) -> (r: String)
    ensures
        r@ == int_text(v as int),
{
    if v < 0 {
        let m: u64 = if v == i64::MIN {
            0x8000_0000_0000_0000
        } else {
            (-v) as u64
        };
        let mut s = String::from_str("-");
        proof {
            reveal_strlit("-");
        }
        s.append(magnitude_text(m).as_str());
        s
    } else {
        magnitude_text(v as u64)
    }
}


/// The decimal text of an integer is never empty.
pub proof fn lemma_int_text_nonempty(v: int)
    ensures
        int_text(v).len() >= 1,
{
    if v < 0 {
        lemma_decimal_text((-v) as nat);
    } else {
        lemma_decimal_text(v as nat);
    }
}


/// The name of the target type, as Rust writes it.
pub open spec fn target_name(t: IntTarget) -> Seq<char> {
    match t {
        IntTarget::U8 => "u8"@,
        IntTarget::U16 => "u16"@,
        IntTarget::I64 => "i64"@,
    }
}

/// What `ParseIntError`'s `Display` writes for each kind.
pub open spec fn int_error_text(k: IntErrorKind) -> Seq<char> {
    match k {
        IntErrorKind::Empty => "cannot parse integer from empty string"@,
        IntErrorKind::InvalidDigit => "invalid digit found in string"@,
        IntErrorKind::PosOverflow => "number too large to fit in target type"@,
        IntErrorKind::NegOverflow => "number too small to fit in target type"@,
    }
}

impl IntTarget {
    /// The name of the type, such as `u8`.
    pub fn name(&self) -> (r: &'static str)
        ensures
            r@ == target_name(*self),
    {
        match self {
            IntTarget::U8 => "u8",
            IntTarget::U16 => "u16",
            IntTarget::I64 => "i64",
        }
    }
}

impl IntErrorKind {
    /// The text that `ParseIntError` shows for this kind.
    pub fn message(&self) -> (r: &'static str)
        ensures
            r@ == int_error_text(*self),
    {
        match self {
            IntErrorKind::Empty => "cannot parse integer from empty string",
            IntErrorKind::InvalidDigit => "invalid digit found in string",
            IntErrorKind::PosOverflow => "number too large to fit in target type",
            IntErrorKind::NegOverflow => "number too small to fit in target type",
        }
    }
}


/// Whether every character of `s` is a decimal digit.
pub open spec fn all_digits(s: Seq<char>) -> bool {
    forall|j: int| 0 <= j < s.len() ==> is_digit(#[trigger] s[j])
}

proof fn lemma_zero_then_digits_value(d: Seq<char>)
    ensures
        digits_value(seq!['0'] + d) == digits_value(d),
    decreases d.len(),
{
    let s = seq!['0'] + d;
    if d.len() == 0 {
        assert(s.drop_last() =~= Seq::<char>::empty());
        assert(digit_value(s.last()) == 0);
        assert(digits_value(s.drop_last()) == 0);
        assert(digits_value(s) == digits_value(s.drop_last()) * 10 + digit_value(s.last()));
        assert(d =~= Seq::<char>::empty());
    } else {
        assert(s.drop_last() =~= seq!['0'] + d.drop_last());
        assert(s.last() == d.last());
        lemma_zero_then_digits_value(d.drop_last());
        assert(digits_value(s) == digits_value(s.drop_last()) * 10 + digit_value(s.last()));
        assert(digits_value(d) == digits_value(d.drop_last()) * 10 + digit_value(d.last()));
    }
}

/// Text made only of digits, of which the value fits the target type, reads
/// as that value: leading zeros included, any length.
pub proof fn lemma_parse_all_digits(s: Seq<char>, t: IntTarget)
    requires
        s.len() > 0,
        all_digits(s),
        digits_value(s) <= target_max(t),
    ensures
        spec_parse_int(s, t) == Ok::<int, IntErrorKind>(digits_value(s)),
{
    assert(is_digit(s[0]));
    lemma_magnitude_of_digits(s, target_max(t), IntErrorKind::PosOverflow);
}

/// Text made only of digits, of which the value does not fit the target
/// type, is an overflow.
pub proof fn lemma_parse_all_digits_too_large(s: Seq<char>, t: IntTarget)
    requires
        s.len() > 0,
        all_digits(s),
        digits_value(s) > target_max(t),
    ensures
        spec_parse_int(s, t) == Err::<int, IntErrorKind>(IntErrorKind::PosOverflow),
{
    assert(is_digit(s[0]));
    lemma_digit_run_skip(s, s.len() as int);
    assert(s.take(s.len() as int) =~= s);
}

/// A leading zero does not change what a text of digits reads as.
pub proof fn lemma_parse_leading_zero(d: Seq<char>, t: IntTarget)
    requires
        d.len() > 0,
        all_digits(d),
    ensures
        spec_parse_int(seq!['0'] + d, t) == spec_parse_int(d, t),
{
    let s = seq!['0'] + d;
    assert(all_digits(s)) by {
        assert forall|j: int| 0 <= j < s.len() implies is_digit(#[trigger] s[j]) by {
            if j > 0 {
                assert(s[j] == d[j - 1]);
            }
        }
    }
    lemma_zero_then_digits_value(d);
    lemma_digits_value_nonneg(d);
    if digits_value(d) <= target_max(t) {
        lemma_parse_all_digits(s, t);
        lemma_parse_all_digits(d, t);
    } else {
        lemma_parse_all_digits_too_large(s, t);
        lemma_parse_all_digits_too_large(d, t);
    }
}

/// The text of `k` zeros.
pub open spec fn zeros(k: nat) -> Seq<char>
    decreases k,
{
    if k == 0 {
        Seq::empty()
    } else {
        seq!['0'] + zeros((k - 1) as nat)
    }
}

/// Any number of leading zeros does not change what a text of digits reads as.
pub proof fn lemma_parse_leading_zeros(k: nat, d: Seq<char>, t: IntTarget)
    requires
        d.len() > 0,
        all_digits(d),
    ensures
        spec_parse_int(zeros(k) + d, t) == spec_parse_int(d, t),
    decreases k,
{
    if k > 0 {
        let rest = zeros((k - 1) as nat) + d;
        lemma_parse_leading_zeros((k - 1) as nat, d, t);
        lemma_zeros_digits((k - 1) as nat);
        assert(all_digits(rest)) by {
            assert forall|j: int| 0 <= j < rest.len() implies is_digit(#[trigger] rest[j]) by {
                if j < zeros((k - 1) as nat).len() {
                    assert(rest[j] == zeros((k - 1) as nat)[j]);
                } else {
                    assert(rest[j] == d[j - zeros((k - 1) as nat).len()]);
                }
            }
        }
        assert(zeros(k) + d =~= seq!['0'] + rest);
        lemma_parse_leading_zero(rest, t);
    }
}

proof fn lemma_zeros_digits(k: nat)
    ensures
        zeros(k).len() == k,
        all_digits(zeros(k)),
    decreases k,
{
    if k > 0 {
        lemma_zeros_digits((k - 1) as nat);
        let z = zeros(k);
        assert forall|j: int| 0 <= j < z.len() implies is_digit(#[trigger] z[j]) by {
            if j > 0 {
                assert(z[j] == zeros((k - 1) as nat)[j - 1]);
            }
        }
    }
}

/// A negative result comes only from a text that starts with `-`, and only
/// for a signed target; every result fits the target.
pub proof fn lemma_parse_sign(s: Seq<char>, t: IntTarget)
    ensures
        spec_parse_int(s, t) matches Ok(v) ==> in_target(t, v)
            && (v < 0 ==> s[0] == '-' && target_signed(t)),
{
    if s.len() > 1 && s[0] == '-' && target_signed(t) {
        lemma_magnitude_nonneg(s.drop_first(), -target_min(t), IntErrorKind::NegOverflow);
    } else if s.len() > 1 && s[0] == '+' {
        lemma_magnitude_nonneg(s.drop_first(), target_max(t), IntErrorKind::PosOverflow);
    } else if s.len() > 0 {
        lemma_magnitude_nonneg(s, target_max(t), IntErrorKind::PosOverflow);
    }
}

proof fn lemma_magnitude_nonneg(digits: Seq<char>, bound: int, overflow: IntErrorKind)
    ensures
        spec_magnitude(digits, bound, overflow) matches Ok(m) ==> 0 <= m <= bound,
{
    let k = digit_run(digits, 0);
    lemma_digit_run_bounds(digits, 0);
    let pre = digits.take(k);
    assert(all_digits(pre)) by {
        assert forall|j: int| 0 <= j < pre.len() implies is_digit(#[trigger] pre[j]) by {
            assert(pre[j] == digits[j]);
        }
    }
    lemma_digits_value_nonneg(pre);
}


/// A `+` before a text of digits changes nothing.
pub proof fn lemma_parse_plus(d: Seq<char>, t: IntTarget)
    requires
        d.len() > 0,
        all_digits(d),
    ensures
        spec_parse_int(seq!['+'] + d, t) == spec_parse_int(d, t),
{
    let s = seq!['+'] + d;
    assert(s.drop_first() =~= d);
    assert(is_digit(d[0]));
}

/// A `-` before a text of digits negates its value for a signed target,
/// within the target's range, and is refused by an unsigned target.
pub proof fn lemma_parse_minus(d: Seq<char>, t: IntTarget)
    requires
        d.len() > 0,
        all_digits(d),
    ensures
        target_signed(t) && digits_value(d) <= -target_min(t) ==> spec_parse_int(seq!['-'] + d, t)
            == Ok::<int, IntErrorKind>(-digits_value(d)),
        target_signed(t) && digits_value(d) > -target_min(t) ==> spec_parse_int(seq!['-'] + d, t)
            == Err::<int, IntErrorKind>(IntErrorKind::NegOverflow),
        !target_signed(t) ==> spec_parse_int(seq!['-'] + d, t) is Err,
{
    let s = seq!['-'] + d;
    assert(s.drop_first() =~= d);
    lemma_digit_run_skip(d, d.len() as int);
    assert(d.take(d.len() as int) =~= d);
    if !target_signed(t) {
        assert(!is_digit(s[0]));
        assert(digit_run(s, 0) == 0);
        assert(s.take(0) =~= Seq::<char>::empty());
    }
}

/// A character that is neither a digit nor a leading sign makes the text
/// no number: what it reads as is an error.
pub proof fn lemma_parse_rejects_stray_char(s: Seq<char>, j: int, t: IntTarget)
    requires
        0 <= j < s.len(),
        !is_digit(s[j]),
        j > 0 || (s[0] != '+' && s[0] != '-'),
    ensures
        spec_parse_int(s, t) is Err,
{
    if s.len() > 1 && s[0] == '-' && target_signed(t) {
        lemma_magnitude_rejects(s.drop_first(), j - 1, -target_min(t), IntErrorKind::NegOverflow);
    } else if s.len() > 1 && s[0] == '+' {
        lemma_magnitude_rejects(s.drop_first(), j - 1, target_max(t), IntErrorKind::PosOverflow);
    } else if s.len() > 0 && !(s.len() == 1 && (s[0] == '+' || s[0] == '-')) {
        lemma_magnitude_rejects(s, j, target_max(t), IntErrorKind::PosOverflow);
    }
}

proof fn lemma_magnitude_rejects(digits: Seq<char>, j: int, bound: int, overflow: IntErrorKind)
    requires
        0 <= j < digits.len(),
        !is_digit(digits[j]),
    ensures
        spec_magnitude(digits, bound, overflow) is Err,
{
    lemma_digit_run_bounds(digits, 0);
    let k = digit_run(digits, 0);
    if k == digits.len() {
        assert(is_digit(digits[j]));
    }
}

} // verus!
