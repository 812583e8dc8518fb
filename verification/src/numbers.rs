//! Syntax of the numeric arguments accepted by effect commands.
//!
//! Integer arguments follow the decimal grammar of Rust's `u32`/`u64`/`i32`
//! `FromStr`: an optional sign, then decimal digits, checked left to right.
//! Floating-point arguments follow the grammar documented for `f64`'s
//! `FromStr`:
//!
//! ```text
//! Float  ::= Sign? ( 'inf' | 'infinity' | 'nan' | Number )
//! Number ::= ( Digit+ | Digit+ '.' Digit* | Digit* '.' Digit+ ) Exp?
//! Exp    ::= ('e' | 'E') Sign? Digit+
//! ```
//!
//! where the special names ignore ASCII case. This module only decides
//! whether a token is a number; numeric values of floating-point arguments
//! are computed by the typed effect constructors.
use vstd::prelude::*;

use crate::text::{decimal, digit_char, is_digit};

verus! {

/// Why an integer argument did not parse.
#[derive(Debug, Clone, Copy, PartialEq, Eq, Structural)]
pub enum IntegerError {
    /// The text was empty.
    Empty,
    /// The text contained a character that is not a decimal digit.
    InvalidDigit,
    /// The value is larger than the target type can hold.
    PosOverflow,
    /// The value is smaller than the target type can hold.
    NegOverflow,
}

/// Why a floating-point argument did not parse, as `f64`'s `FromStr`
/// reports it.
#[derive(Debug, Clone, Copy, PartialEq, Eq, Structural)]
pub enum FloatError {
    /// The text was empty.
    Empty,
    /// The text is not a floating-point literal.
    Invalid,
}

/// The kind of float parse error for the text `s`, which is not a literal.
pub open spec fn float_error_kind(s: Seq<char>) -> FloatError {
    if s.len() == 0 {
        FloatError::Empty
    } else {
        FloatError::Invalid
    }
}

/// The kind of float parse error for `value`, which is not a literal.
pub fn float_error_of(value: &str) -> (r: FloatError)
    ensures
        r == float_error_kind(value@),
{
    if value.unicode_len() == 0 {
        FloatError::Empty
    } else {
        FloatError::Invalid
    }
}

/// Message of an integer parse error, as Rust's `ParseIntError` words it.
pub open spec fn integer_error_message(e: IntegerError) -> Seq<char> {
    match e {
        IntegerError::Empty => "cannot parse integer from empty string"@,
        IntegerError::InvalidDigit => "invalid digit found in string"@,
        IntegerError::PosOverflow => "number too large to fit in target type"@,
        IntegerError::NegOverflow => "number too small to fit in target type"@,
    }
}

/// Value of the decimal digit `c`.
pub open spec fn digit_value(c: char) -> nat {
    (c as int - '0' as int) as nat
}

/// Scans the digits of `s` after accumulating `acc`, failing on the first
/// non-digit or on the first digit that takes the value above `max`.
pub open spec fn scan_digits(acc: nat, s: Seq<char>, max: nat) -> Result<nat, IntegerError>
    decreases s.len(),
{
    if s.len() == 0 {
        Ok(acc)
    } else if !is_digit(s[0]) {
        Err(IntegerError::InvalidDigit)
    } else if acc * 10 + digit_value(s[0]) > max {
        Err(IntegerError::PosOverflow)
    } else {
        scan_digits(acc * 10 + digit_value(s[0]), s.drop_first(), max)
    }
}

/// Parses an unsigned decimal integer no larger than `max`.
pub open spec fn parse_unsigned(s: Seq<char>, max: nat) -> Result<nat, IntegerError> {
    if s.len() == 0 {
        Err(IntegerError::Empty)
    } else if s.len() == 1 && (s[0] == '+' || s[0] == '-') {
        Err(IntegerError::InvalidDigit)
    } else if s[0] == '+' {
        scan_digits(0, s.drop_first(), max)
    } else {
        scan_digits(0, s, max)
    }
}

/// Parses a signed decimal integer in `-neg_max..=pos_max`.
pub open spec fn parse_signed(s: Seq<char>, neg_max: nat, pos_max: nat) -> Result<int, IntegerError> {
    if s.len() == 0 {
        Err(IntegerError::Empty)
    } else if s.len() == 1 && (s[0] == '+' || s[0] == '-') {
        Err(IntegerError::InvalidDigit)
    } else if s[0] == '-' {
        match scan_digits(0, s.drop_first(), neg_max) {
            Ok(v) => Ok(-(v as int)),
            Err(IntegerError::PosOverflow) => Err(IntegerError::NegOverflow),
            Err(e) => Err(e),
        }
    } else if s[0] == '+' {
        match scan_digits(0, s.drop_first(), pos_max) {
            Ok(v) => Ok(v as int),
            Err(e) => Err(e),
        }
    } else {
        match scan_digits(0, s, pos_max) {
            Ok(v) => Ok(v as int),
            Err(e) => Err(e),
        }
    }
}

/// Lemma: scanning a sequence with one more character takes one more step.
proof fn lemma_scan_push(acc: nat, s: Seq<char>, c: char, max: nat)
    ensures
        scan_digits(acc, s.push(c), max) == match scan_digits(acc, s, max) {
            Err(e) => Err(e),
            Ok(v) => if !is_digit(c) {
                Err(IntegerError::InvalidDigit)
            } else if v * 10 + digit_value(c) > max {
                Err(IntegerError::PosOverflow)
            } else {
                Ok(v * 10 + digit_value(c))
            },
        },
    decreases s.len(),
{
    if s.len() == 0 {
        assert(s.push(c).drop_first() =~= Seq::<char>::empty());
        assert(s.push(c)[0] == c);
        if is_digit(c) && acc * 10 + digit_value(c) <= max {
            assert(scan_digits(acc * 10 + digit_value(c), Seq::<char>::empty(), max) == Ok::<
                nat,
                IntegerError,
            >(acc * 10 + digit_value(c)));
        }
    } else {
        assert(s.push(c)[0] == s[0]);
        assert(s.push(c).drop_first() =~= s.drop_first().push(c));
        if is_digit(s[0]) && acc * 10 + digit_value(s[0]) <= max {
            lemma_scan_push(acc * 10 + digit_value(s[0]), s.drop_first(), c, max);
        }
    }
}

/// Lemma: the decimal rendering of `n` is a non-empty run of digits.
pub proof fn lemma_decimal_digits(n: nat)
    ensures
        decimal(n).len() >= 1,
        forall|i: int| 0 <= i < decimal(n).len() ==> is_digit(#[trigger] decimal(n)[i]),
    decreases n,
{
    if n >= 10 {
        lemma_decimal_digits(n / 10);
    }
}

/// Lemma: the decimal rendering of `n <= max` parses back to `n`.
pub proof fn lemma_parse_decimal(n: nat, max: nat)
    requires
        n <= max,
    ensures
        parse_unsigned(decimal(n), max) == Ok::<nat, IntegerError>(n),
{
    lemma_decimal_digits(n);
    lemma_scan_decimal(n, max);
}

/// Lemma: scanning the decimal rendering of `n <= max` yields `n`.
proof fn lemma_scan_decimal(n: nat, max: nat)
    requires
        n <= max,
    ensures
        scan_digits(0, decimal(n), max) == Ok::<nat, IntegerError>(n),
    decreases n,
{
    if n < 10 {
        assert(digit_value(digit_char(n)) == n);
        assert(is_digit(digit_char(n)));
        lemma_scan_push(0, Seq::<char>::empty(), digit_char(n), max);
        assert(Seq::<char>::empty().push(digit_char(n)) =~= decimal(n));
    } else {
        let q = n / 10;
        let d = n % 10;
        assert(q * 10 + d == n);
        lemma_scan_decimal(q, max);
        lemma_scan_push(0, decimal(q), digit_char(d), max);
        assert(digit_value(digit_char(d)) == d);
        assert(is_digit(digit_char(d)));
        assert(decimal(n) == decimal(q).push(digit_char(d)));
    }
}

/// Lemma: a successful scan never exceeds `max`.
proof fn lemma_scan_bounded(acc: nat, s: Seq<char>, max: nat)
    requires
        acc <= max,
    ensures
        scan_digits(acc, s, max) matches Ok(v) ==> v <= max,
    decreases s.len(),
{
    if s.len() > 0 && is_digit(s[0]) && acc * 10 + digit_value(s[0]) <= max {
        lemma_scan_bounded(acc * 10 + digit_value(s[0]), s.drop_first(), max);
    }
}

/// Scans decimal digits `chars[from..]` onto `acc`, bounded by `max`.
fn scan_digits_exec(chars: &[char], from: usize, acc: u64, max: u64) -> (r: Result<u64, IntegerError>)
    requires
        from <= chars@.len(),
        acc <= max,
    ensures
        match scan_digits(acc as nat, chars@.skip(from as int), max as nat) {
            Ok(v) => r == Ok::<u64, IntegerError>(v as u64),
            Err(e) => r == Err::<u64, IntegerError>(e),
        },
{
    let mut value: u64 = acc;
    let mut i: usize = from;
    while i < chars.len()
        invariant
            from <= i <= chars@.len(),
            value <= max,
            scan_digits(acc as nat, chars@.skip(from as int), max as nat) == scan_digits(
                value as nat,
                chars@.skip(i as int),
                max as nat,
            ),
        decreases chars@.len() - i,
    {
        let c = chars[i];
        proof {
            assert(chars@.skip(i as int)[0] == c);
            assert(chars@.skip(i as int).drop_first() =~= chars@.skip(i + 1));
        }
        if !('0' <= c && c <= '9') {
            return Err(IntegerError::InvalidDigit);
        }
        let d = (c as u32 - '0' as u32) as u64;
        assert(d == digit_value(c));
        if d > max || value > (max - d) / 10 {
            assert(value * 10 + d > max) by (nonlinear_arith)
                requires
                    d > max || value > (max - d) / 10,
                    d <= 9,
            ;
            return Err(IntegerError::PosOverflow);
        }
        assert(value * 10 + d <= max) by (nonlinear_arith)
            requires
                value <= (max - d) / 10,
                d <= 9,
        ;
        value = value * 10 + d;
        i = i + 1;
    }
    proof {
        assert(chars@.skip(i as int).len() == 0);
    }
    Ok(value)
}

/// Parses the characters of `value` as an unsigned integer no larger than `max`.
pub fn parse_unsigned_chars(value: &[char], max: u64) -> (r: Result<u64, IntegerError>)
    ensures
        match parse_unsigned(value@, max as nat) {
            Ok(v) => r == Ok::<u64, IntegerError>(v as u64),
            Err(e) => r == Err::<u64, IntegerError>(e),
        },
{
    if value.len() == 0 {
        return Err(IntegerError::Empty);
    }
    if value.len() == 1 && (value[0] == '+' || value[0] == '-') {
        return Err(IntegerError::InvalidDigit);
    }
    if value[0] == '+' {
        proof {
            assert(value@.skip(1) =~= value@.drop_first());
        }
        scan_digits_exec(value, 1, 0, max)
    } else {
        proof {
            assert(value@.skip(0) =~= value@);
        }
        scan_digits_exec(value, 0, 0, max)
    }
}

/// Parses `value` as a `u32`, as `u32::from_str` does.
pub fn parse_u32_text(value: &str) -> (r: Result<u32, IntegerError>)
    ensures
        match parse_unsigned(value@, u32::MAX as nat) {
            Ok(v) => r == Ok::<u32, IntegerError>(v as u32),
            Err(e) => r == Err::<u32, IntegerError>(e),
        },
{
    let chars = crate::text::chars_of(value);
    match parse_unsigned_chars(chars.as_slice(), u32::MAX as u64) {
        Ok(v) => {
            proof {
                lemma_parse_unsigned_bounded(chars@, u32::MAX as nat);
            }
            Ok(v as u32)
        },
        Err(e) => Err(e),
    }
}

/// Parses `value` as a `u64`, as `u64::from_str` does.
pub fn parse_u64_text(value: &str) -> (r: Result<u64, IntegerError>)
    ensures
        match parse_unsigned(value@, u64::MAX as nat) {
            Ok(v) => r == Ok::<u64, IntegerError>(v as u64),
            Err(e) => r == Err::<u64, IntegerError>(e),
        },
{
    let chars = crate::text::chars_of(value);
    parse_unsigned_chars(chars.as_slice(), u64::MAX)
}

/// Lemma: a successful signed parse lies in `-neg_max..=pos_max`.
pub proof fn lemma_parse_signed_bounded(s: Seq<char>, neg_max: nat, pos_max: nat)
    ensures
        parse_signed(s, neg_max, pos_max) matches Ok(v) ==> -(neg_max as int) <= v <= pos_max,
{
    if s.len() > 0 {
        lemma_scan_bounded(0, s, pos_max);
        lemma_scan_bounded(0, s.drop_first(), pos_max);
        lemma_scan_bounded(0, s.drop_first(), neg_max);
    }
}

/// Lemma: a successful unsigned parse never exceeds `max`.
pub proof fn lemma_parse_unsigned_bounded(s: Seq<char>, max: nat)
    ensures
        parse_unsigned(s, max) matches Ok(v) ==> v <= max,
{
    if s.len() > 0 {
        lemma_scan_bounded(0, s, max);
        lemma_scan_bounded(0, s.drop_first(), max);
    }
}

/// Parses `value` as an `i32`, as `i32::from_str` does.
pub fn parse_i32_text(value: &str) -> (r: Result<i32, IntegerError>)
    ensures
        match parse_signed(value@, 0x8000_0000, 0x7fff_ffff) {
            Ok(v) => r == Ok::<i32, IntegerError>(v as i32),
            Err(e) => r == Err::<i32, IntegerError>(e),
        },
{
    let chars = crate::text::chars_of(value);
    if chars.len() == 0 {
        return Err(IntegerError::Empty);
    }
    if chars.len() == 1 && (chars[0] == '+' || chars[0] == '-') {
        return Err(IntegerError::InvalidDigit);
    }
    if chars[0] == '-' {
        proof {
            assert(chars@.skip(1) =~= chars@.drop_first());
        }
        match scan_digits_exec(chars.as_slice(), 1, 0, 0x8000_0000) {
            Ok(v) => {
                proof {
                    lemma_scan_bounded(0, chars@.drop_first(), 0x8000_0000);
                }
                Ok((0 - (v as i64)) as i32)
            },
            Err(IntegerError::PosOverflow) => Err(IntegerError::NegOverflow),
            Err(e) => Err(e),
        }
    } else {
        let from: usize = if chars[0] == '+' {
            1
        } else {
            0
        };
        proof {
            assert(chars@.skip(1) =~= chars@.drop_first());
            assert(chars@.skip(0) =~= chars@);
        }
        match scan_digits_exec(chars.as_slice(), from, 0, 0x7fff_ffff) {
            Ok(v) => {
                proof {
                    lemma_scan_bounded(0, chars@.skip(from as int), 0x7fff_ffff);
                }
                Ok(v as i32)
            },
            Err(e) => Err(e),
        }
    }
}

/// Index of the first `a` or `b` in `s`, or `s.len()` if there is none.
pub open spec fn first_of(s: Seq<char>, a: char, b: char) -> int
    decreases s.len(),
{
    if s.len() == 0 {
        0
    } else if s[0] == a || s[0] == b {
        0
    } else {
        1 + first_of(s.drop_first(), a, b)
    }
}

/// Whether every character of `s` is a decimal digit.
pub open spec fn all_digits(s: Seq<char>) -> bool {
    forall|i: int| 0 <= i < s.len() ==> is_digit(#[trigger] s[i])
}

/// `Digit+ | Digit+ '.' Digit* | Digit* '.' Digit+`.
pub open spec fn is_mantissa(m: Seq<char>) -> bool {
    let dot = first_of(m, '.', '.');
    if dot == m.len() {
        m.len() > 0 && all_digits(m)
    } else {
        all_digits(m.take(dot)) && all_digits(m.skip(dot + 1)) && m.len() >= 2
    }
}

/// `Sign? Digit+`.
pub open spec fn is_exponent_digits(x: Seq<char>) -> bool {
    if x.len() > 0 && (x[0] == '+' || x[0] == '-') {
        x.len() > 1 && all_digits(x.drop_first())
    } else {
        x.len() > 0 && all_digits(x)
    }
}

/// A decimal number: a mantissa, optionally followed by `e`/`E` and an
/// exponent.
pub open spec fn is_decimal_number(b: Seq<char>) -> bool {
    let e = first_of(b, 'e', 'E');
    is_mantissa(b.take(e)) && (e == b.len() || is_exponent_digits(b.skip(e + 1)))
}

/// ASCII lower-casing of one character.
pub open spec fn ascii_lower(c: char) -> char {
    if 'A' <= c && c <= 'Z' {
        ((c as u32) + 32) as char
    } else {
        c
    }
}

/// Whether `s` equals `word` ignoring ASCII case (`word` is lower case).
pub open spec fn eq_ignore_case(s: Seq<char>, word: Seq<char>) -> bool {
    s.len() == word.len() && forall|i: int| 0 <= i < s.len() ==> ascii_lower(#[trigger] s[i]) == word[i]
}

/// Whether `s` is a floating-point literal accepted by `f64::from_str`.
pub open spec fn is_float_literal(s: Seq<char>) -> bool {
    let body = if s.len() > 0 && (s[0] == '+' || s[0] == '-') {
        s.drop_first()
    } else {
        s
    };
    eq_ignore_case(body, "inf"@) || eq_ignore_case(body, "infinity"@) || eq_ignore_case(body, "nan"@)
        || is_decimal_number(body)
}

/// Index of the first `a` or `b` in `chars[from..]`, as an absolute index.
pub fn first_of_exec(chars: &[char], from: usize, a: char, b: char) -> (r: usize)
    requires
        from <= chars@.len(),
    ensures
        r as int == from + first_of(chars@.skip(from as int), a, b),
        from <= r <= chars@.len(),
{
    proof {
        lemma_first_of_prefix(chars@.skip(from as int), a, b, 0);
    }
    let mut i = from;
    while i < chars.len()
        invariant
            from <= i <= chars@.len(),
            from + first_of(chars@.skip(from as int), a, b) == i + first_of(
                chars@.skip(i as int),
                a,
                b,
            ),
        decreases chars@.len() - i,
    {
        proof {
            assert(chars@.skip(i as int)[0] == chars@[i as int]);
            assert(chars@.skip(i as int).drop_first() =~= chars@.skip(i + 1));
        }
        proof {
            lemma_first_of_prefix(chars@.skip(i + 1), a, b, 0);
        }
        if chars[i] == a || chars[i] == b {
            return i;
        }
        i = i + 1;
    }
    i
}

/// Whether `chars[from..to]` are all decimal digits.
fn all_digits_exec(chars: &[char], from: usize, to: usize) -> (r: bool)
    requires
        from <= to <= chars@.len(),
    ensures
        r == all_digits(chars@.subrange(from as int, to as int)),
{
    let mut i = from;
    while i < to
        invariant
            from <= i <= to <= chars@.len(),
            forall|j: int| from <= j < i ==> is_digit(chars@[j]),
        decreases to - i,
    {
        if !('0' <= chars[i] && chars[i] <= '9') {
            assert(chars@.subrange(from as int, to as int)[i - from] == chars@[i as int]);
            return false;
        }
        i = i + 1;
    }
    assert forall|j: int| 0 <= j < to - from implies is_digit(
        #[trigger] chars@.subrange(from as int, to as int)[j],
    ) by {
        assert(chars@.subrange(from as int, to as int)[j] == chars@[from + j]);
    }
    true
}

/// Whether `chars[from..]` equals the lower-case `word` ignoring ASCII case.
fn eq_ignore_case_exec(chars: &[char], from: usize, word: &str) -> (r: bool)
    requires
        from <= chars@.len(),
    ensures
        r == eq_ignore_case(chars@.skip(from as int), word@),
{
    let w = crate::text::chars_of(word);
    if chars.len() - from != w.len() {
        return false;
    }
    let mut i: usize = 0;
    while i < w.len()
        invariant
            chars@.len() - from == w@.len(),
            from + w.len() == chars.len(),
            w@ == word@,
            from <= chars@.len(),
            0 <= i <= w@.len(),
            forall|j: int| 0 <= j < i ==> ascii_lower(chars@[from + j]) == w@[j],
        decreases w@.len() - i,
    {
        let c = chars[from + i];
        let lower = if 'A' <= c && c <= 'Z' {
            ((c as u32) + 32) as u8 as char
        } else {
            c
        };
        assert(lower == ascii_lower(c)) by {
            if 'A' <= c && c <= 'Z' {
                assert(((c as u32) + 32) as u8 as char == ((c as u32) + 32) as char);
            }
        }
        if lower != w[i] {
            assert(chars@.skip(from as int)[i as int] == c);
            return false;
        }
        i = i + 1;
    }
    assert forall|j: int| 0 <= j < chars@.skip(from as int).len() implies ascii_lower(
        #[trigger] chars@.skip(from as int)[j],
    ) == word@[j] by {
        assert(chars@.skip(from as int)[j] == chars@[from + j]);
    }
    true
}

/// Whether the characters `chars[from..]` form a decimal number.
pub fn is_decimal_number_exec(chars: &[char], from: usize) -> (r: bool)
    requires
        from <= chars@.len(),
    ensures
        r == is_decimal_number(chars@.skip(from as int)),
{
    let ghost b = chars@.skip(from as int);
    let e = first_of_exec(chars, from, 'e', 'E');
    let ghost m = b.take(e - from);
    proof {
        assert(m =~= chars@.subrange(from as int, e as int));
    }
    let dot = first_of_exec(chars, from, '.', '.');
    // The first '.' in the mantissa is the first '.' overall when it
    // precedes the exponent marker.
    let mantissa_ok = if dot < e {
        proof {
            lemma_first_of_prefix(b, '.', '.', e - from);
            assert(m.take(dot - from) =~= chars@.subrange(from as int, dot as int));
            assert(m.skip(dot - from + 1) =~= chars@.subrange(dot + 1, e as int));
        }
        e - from >= 2 && all_digits_exec(chars, from, dot) && all_digits_exec(chars, dot + 1, e)
    } else {
        proof {
            lemma_first_of_prefix(b, '.', '.', e - from);
        }
        e > from && all_digits_exec(chars, from, e)
    };
    assert(mantissa_ok == is_mantissa(m));
    if !mantissa_ok {
        return false;
    }
    if e == chars.len() {
        return true;
    }
    let start = e + 1;
    proof {
        assert(b.skip(e - from + 1) =~= chars@.skip(start as int));
    }
    if start < chars.len() && (chars[start] == '+' || chars[start] == '-') {
        proof {
            assert(chars@.skip(start as int).drop_first() =~= chars@.subrange(
                start + 1,
                chars@.len() as int,
            ));
        }
        start + 1 < chars.len() && all_digits_exec(chars, start + 1, chars.len())
    } else {
        proof {
            assert(chars@.skip(start as int) =~= chars@.subrange(start as int, chars@.len() as int));
        }
        start < chars.len() && all_digits_exec(chars, start, chars.len())
    }
}

/// Lemma: the first `a`/`b` within a prefix of length `n` is the first one
/// overall, when it lies before `n`; otherwise the prefix has none.
pub proof fn lemma_first_of_prefix(s: Seq<char>, a: char, b: char, n: int)
    requires
        0 <= n <= s.len(),
    ensures
        first_of(s, a, b) < n ==> first_of(s.take(n), a, b) == first_of(s, a, b),
        first_of(s, a, b) >= n ==> first_of(s.take(n), a, b) == n,
        0 <= first_of(s, a, b) <= s.len(),
    decreases s.len(),
{
    if s.len() > 0 {
        lemma_first_of_prefix(s.drop_first(), a, b, if n > 0 {
            n - 1
        } else {
            0
        });
        if n > 0 {
            assert(s.take(n).drop_first() =~= s.drop_first().take(n - 1));
            assert(s.take(n)[0] == s[0]);
        } else {
            assert(s.take(n).len() == 0);
        }
    }
}

/// Whether `value` is a floating-point literal accepted by `f64::from_str`.
pub fn is_float_text(value: &str) -> (r: bool)
    ensures
        r == is_float_literal(value@),
{
    let chars = crate::text::chars_of(value);
    let from: usize = if chars.len() > 0 && (chars[0] == '+' || chars[0] == '-') {
        1
    } else {
        0
    };
    proof {
        assert(chars@.skip(1) =~= chars@.drop_first());
        assert(chars@.skip(0) =~= chars@);
    }
    eq_ignore_case_exec(chars.as_slice(), from, "inf") || eq_ignore_case_exec(
        chars.as_slice(),
        from,
        "infinity",
    ) || eq_ignore_case_exec(chars.as_slice(), from, "nan") || is_decimal_number_exec(
        chars.as_slice(),
        from,
    )
}


/// The first `a` or `b` that `first_of` finds is one of them.
pub proof fn lemma_first_of_hit(s: Seq<char>, a: char, b: char)
    ensures
        0 <= first_of(s, a, b) <= s.len(),
        first_of(s, a, b) < s.len() ==> (s[first_of(s, a, b)] == a || s[first_of(s, a, b)]
            == b),
    decreases s.len(),
{
    if s.len() > 0 && !(s[0] == a || s[0] == b) {
        lemma_first_of_hit(s.drop_first(), a, b);
    }
}

/// Whether `c` can be the last character of a floating-point literal: a
/// digit, `.`, or the last letter of `inf`, `infinity` or `nan`.
pub open spec fn float_literal_end(c: char) -> bool {
    is_digit(c) || c == '.' || ascii_lower(c) == 'f' || ascii_lower(c) == 'y' || ascii_lower(c)
        == 'n'
}

/// A floating-point literal is not empty and ends with a digit, `.`, or
/// the last letter of `inf`, `infinity` or `nan`.
pub proof fn lemma_float_literal_end(s: Seq<char>)
    requires
        is_float_literal(s),
    ensures
        s.len() > 0,
        float_literal_end(s.last()),
{
    let body = if s.len() > 0 && (s[0] == '+' || s[0] == '-') {
        s.drop_first()
    } else {
        s
    };
    reveal_strlit("inf");
    reveal_strlit("infinity");
    reveal_strlit("nan");
    if eq_ignore_case(body, "inf"@) {
        assert(ascii_lower(body[2]) == "inf"@[2]);
    } else if eq_ignore_case(body, "infinity"@) {
        assert(ascii_lower(body[7]) == "infinity"@[7]);
    } else if eq_ignore_case(body, "nan"@) {
        assert(ascii_lower(body[2]) == "nan"@[2]);
    } else {
        let e = first_of(body, 'e', 'E');
        lemma_first_of_hit(body, 'e', 'E');
        if e == body.len() {
            let m = body.take(e);
            assert(m =~= body);
            let dot = first_of(m, '.', '.');
            lemma_first_of_hit(m, '.', '.');
            if dot == m.len() {
                assert(is_digit(m[m.len() - 1]));
            } else if dot < m.len() - 1 {
                let r = m.skip(dot + 1);
                assert(r[r.len() - 1] == m[m.len() - 1]);
            }
        } else {
            let x = body.skip(e + 1);
            assert(x[x.len() - 1] == body[body.len() - 1]);
            if x.len() > 0 && (x[0] == '+' || x[0] == '-') {
                let y = x.drop_first();
                assert(y[y.len() - 1] == x[x.len() - 1]);
            }
        }
    }
    assert(body.len() > 0);
    assert(body[body.len() - 1] == s[s.len() - 1]);
}


/// The default values the commands render are floating-point literals.
pub proof fn lemma_default_literals()
    ensures
        is_float_literal("0"@),
        is_float_literal("1"@),
        is_float_literal("0.5"@),
        is_float_literal("40"@),
{
    reveal_strlit("0");
    reveal_strlit("1");
    reveal_strlit("0.5");
    reveal_strlit("40");
    reveal_strlit("inf");
    reveal_strlit("infinity");
    reveal_strlit("nan");
    reveal_with_fuel(first_of, 4);
    assert("0.5"@.take(1) =~= seq!['0']);
    assert("0.5"@.skip(2) =~= seq!['5']);
    assert("0.5"@.take(3) =~= "0.5"@);
    assert("40"@.take(2) =~= "40"@);
    assert("1"@.take(1) =~= "1"@);
    assert("0"@.take(1) =~= "0"@);
}


/// Whether `c` can occur in a floating-point literal: a digit, `.`, a sign,
/// an exponent mark, or a letter of `inf`, `infinity` or `nan` in either
/// case.
pub open spec fn float_char(c: char) -> bool {
    ||| is_digit(c)
    ||| c == '.'
    ||| c == '+'
    ||| c == '-'
    ||| c == 'e'
    ||| c == 'E'
    ||| ascii_lower(c) == 'i'
    ||| ascii_lower(c) == 'n'
    ||| ascii_lower(c) == 'f'
    ||| ascii_lower(c) == 't'
    ||| ascii_lower(c) == 'y'
    ||| ascii_lower(c) == 'a'
}

/// Every character of a floating-point literal is a [`float_char`]; a
/// literal with a sign has more after it, and a one-character literal is a
/// digit.
pub proof fn lemma_float_literal_chars(s: Seq<char>)
    requires
        is_float_literal(s),
    ensures
        forall|i: int| 0 <= i < s.len() ==> float_char(#[trigger] s[i]),
        (s[0] == '+' || s[0] == '-') ==> s.len() >= 2,
        s.len() == 1 ==> is_digit(s[0]),
{
    lemma_float_literal_end(s);
    let signed = s.len() > 0 && (s[0] == '+' || s[0] == '-');
    let body = if signed {
        s.drop_first()
    } else {
        s
    };
    let off: int = if signed {
        1
    } else {
        0
    };
    reveal_strlit("inf");
    reveal_strlit("infinity");
    reveal_strlit("nan");
    assert(body.len() > 0);
    assert(forall|i: int| 0 <= i < body.len() ==> body[i] == s[i + off]);
    if eq_ignore_case(body, "inf"@) || eq_ignore_case(body, "infinity"@) || eq_ignore_case(
        body,
        "nan"@,
    ) {
        assert forall|i: int| 0 <= i < body.len() implies float_char(#[trigger] body[i]) by {
            if eq_ignore_case(body, "inf"@) {
                assert(ascii_lower(body[i]) == "inf"@[i]);
            } else if eq_ignore_case(body, "infinity"@) {
                assert(ascii_lower(body[i]) == "infinity"@[i]);
            } else {
                assert(ascii_lower(body[i]) == "nan"@[i]);
            }
        }
    } else {
        let e = first_of(body, 'e', 'E');
        lemma_first_of_hit(body, 'e', 'E');
        let m = body.take(e);
        let dot = first_of(m, '.', '.');
        lemma_first_of_hit(m, '.', '.');
        assert forall|i: int| 0 <= i < body.len() implies float_char(#[trigger] body[i]) by {
            if i < e {
                assert(body[i] == m[i]);
                if i < dot {
                    assert(m.take(dot)[i] == m[i]);
                } else if i > dot {
                    assert(m.skip(dot + 1)[i - dot - 1] == m[i]);
                }
            } else if i > e {
                let x = body.skip(e + 1);
                assert(x[i - e - 1] == body[i]);
                if x.len() > 0 && (x[0] == '+' || x[0] == '-') && i - e - 1 > 0 {
                    assert(x.drop_first()[i - e - 2] == x[i - e - 1]);
                }
            }
        }
        if s.len() == 1 {
            assert(body =~= s);
            if e == 0 {
                assert(m.len() == 0);
            } else {
                assert(m =~= body);
                assert(dot == 1 || dot == 0);
                if dot == 0 {
                    assert(m.skip(1).len() == 0);
                }
            }
        }
    }
    assert forall|i: int| 0 <= i < s.len() implies float_char(#[trigger] s[i]) by {
        if signed && i == 0 {
        } else {
            assert(s[i] == body[i - off]);
        }
    }
}

} // verus!
