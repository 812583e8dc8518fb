//! The exact decimal value of a number literal, and the range checks that
//! the command parsers make on it.
//!
//! A finite literal `±digits[.digits][e±digits]` has the value
//! `±0.S × 10^P`, where `S` are its significant digits (the mantissa digits
//! without the point and without leading zeros) and `P` is its decimal
//! point position. Range checks compare that exact value with their bounds.
use vstd::prelude::*;

use crate::numbers::{
    digit_value, first_of, first_of_exec, is_decimal_number, is_decimal_number_exec,
    is_float_literal, lemma_first_of_hit, lemma_first_of_prefix,
};
use crate::text::{chars_of, is_digit};

verus! {

/// The literal without its sign.
pub open spec fn literal_body(s: Seq<char>) -> Seq<char> {
    if s.len() > 0 && (s[0] == '+' || s[0] == '-') {
        s.drop_first()
    } else {
        s
    }
}

/// Whether the literal carries a minus sign.
pub open spec fn literal_negative(s: Seq<char>) -> bool {
    s.len() > 0 && s[0] == '-'
}

/// Whether the literal is a finite number (not `inf`, `infinity` or `nan`).
pub open spec fn literal_finite(s: Seq<char>) -> bool {
    is_decimal_number(literal_body(s))
}

/// The mantissa of a literal body: the text before `e`/`E`.
pub open spec fn mantissa(b: Seq<char>) -> Seq<char> {
    b.take(first_of(b, 'e', 'E'))
}

/// The number of mantissa digits before the point.
pub open spec fn int_digits(m: Seq<char>) -> int {
    first_of(m, '.', '.')
}

/// The digits of a mantissa, without its point.
pub open spec fn mantissa_digits(m: Seq<char>) -> Seq<char> {
    let d = first_of(m, '.', '.');
    if d < m.len() {
        m.take(d) + m.skip(d + 1)
    } else {
        m
    }
}

/// The number of leading `0` digits.
pub open spec fn leading_zeros(d: Seq<char>) -> nat
    decreases d.len(),
{
    if d.len() > 0 && d[0] == '0' {
        1 + leading_zeros(d.drop_first())
    } else {
        0
    }
}

/// The value of the decimal digits `s` after the value `acc` of the digits
/// before them.
pub open spec fn digits_nat(acc: nat, s: Seq<char>) -> nat
    decreases s.len(),
{
    if s.len() == 0 {
        acc
    } else {
        digits_nat(acc * 10 + digit_value(s[0]), s.drop_first())
    }
}

/// The exponent of a literal body (`0` without `e`/`E`).
pub open spec fn exponent(b: Seq<char>) -> int {
    let e = first_of(b, 'e', 'E');
    if e >= b.len() {
        0
    } else {
        let x = b.skip(e + 1);
        if x.len() > 0 && x[0] == '-' {
            -(digits_nat(0, x.drop_first()) as int)
        } else if x.len() > 0 && x[0] == '+' {
            digits_nat(0, x.drop_first()) as int
        } else {
            digits_nat(0, x) as int
        }
    }
}

/// The significant digits `S` of a finite literal.
pub open spec fn significant(s: Seq<char>) -> Seq<char> {
    let d = mantissa_digits(mantissa(literal_body(s)));
    d.skip(leading_zeros(d) as int)
}

/// The decimal point position `P` of a finite literal, whose value is
/// `±0.S × 10^P`.
pub open spec fn point(s: Seq<char>) -> int {
    let b = literal_body(s);
    let m = mantissa(b);
    int_digits(m) - leading_zeros(mantissa_digits(m)) + exponent(b)
}

/// Whether the literal's value is zero.
pub open spec fn value_zero(s: Seq<char>) -> bool {
    significant(s).len() == 0
}

/// Whether every digit of `t` from index `k` on is `0`.
pub open spec fn zeros_from(t: Seq<char>, k: int) -> bool {
    forall|i: int| k <= i < t.len() ==> t[i] == '0'
}

/// Whether the literal is finite and above zero.
pub open spec fn value_positive(s: Seq<char>) -> bool {
    literal_finite(s) && !literal_negative(s) && !value_zero(s)
}

/// Whether the literal is finite and not below zero.
pub open spec fn value_nonnegative(s: Seq<char>) -> bool {
    literal_finite(s) && (!literal_negative(s) || value_zero(s))
}

/// Whether the literal is finite and below zero.
pub open spec fn value_negative(s: Seq<char>) -> bool {
    literal_finite(s) && literal_negative(s) && !value_zero(s)
}

/// Whether the literal is finite and at most 100: zero, negative, below
/// 100 (`P <= 2`), or exactly 100 (`P == 3` with `S` a `1` and zeros).
pub open spec fn value_at_most_100(s: Seq<char>) -> bool {
    &&& literal_finite(s)
    &&& (literal_negative(s) || value_zero(s) || point(s) <= 2 || (point(s) == 3 && significant(
        s,
    )[0] == '1' && zeros_from(significant(s), 1)))
}

/// The whole number the first `p` significant digits give, for `p` 1 or 2.
pub open spec fn leading_value(sig: Seq<char>, p: int) -> nat {
    if p == 1 {
        digit_value(sig[0])
    } else if sig.len() == 1 {
        digit_value(sig[0]) * 10
    } else {
        digit_value(sig[0]) * 10 + digit_value(sig[1])
    }
}

/// Whether the literal is a whole number in `2..=32`.
pub open spec fn value_whole_2_to_32(s: Seq<char>) -> bool {
    &&& value_positive(s)
    &&& (point(s) == 1 || point(s) == 2)
    &&& zeros_from(significant(s), point(s))
    &&& 2 <= leading_value(significant(s), point(s)) <= 32
}

/// The decimal point position of a finite literal, exactly when it is
/// small, and otherwise which side of `-68..=68` it lies.
pub enum Point {
    Exact(i128),
    Above,
    Below,
}

/// The exact decimal value of a literal, as computed.
pub struct DecimalForm {
    pub negative: bool,
    pub finite: bool,
    pub significant: Vec<char>,
    pub point: Point,
}

/// Lemma: a digit value is at least what came before it.
proof fn lemma_digits_nat_ge(acc: nat, s: Seq<char>)
    ensures
        digits_nat(acc, s) >= acc,
    decreases s.len(),
{
    if s.len() > 0 {
        lemma_digits_nat_ge(acc * 10 + digit_value(s[0]), s.drop_first());
    }
}

/// The value of the exponent digits `chars[from..]`, or saturation above
/// `cap`.
fn scan_exponent(chars: &[char], from: usize, cap: u128) -> (r: Option<u128>)
    requires
        from <= chars@.len(),
        cap < u128::MAX / 20,
        forall|j: int| from <= j < chars@.len() ==> is_digit(#[trigger] chars@[j]),
    ensures
        match r {
            Some(v) => v == digits_nat(0, chars@.skip(from as int)) && v <= cap,
            None => digits_nat(0, chars@.skip(from as int)) > cap,
        },
{
    let mut acc: u128 = 0;
    let mut i = from;
    while i < chars.len()
        invariant
            from <= i <= chars@.len(),
            acc <= cap,
            cap < u128::MAX / 20,
            forall|j: int| from <= j < chars@.len() ==> is_digit(#[trigger] chars@[j]),
            digits_nat(0, chars@.skip(from as int)) == digits_nat(acc as nat, chars@.skip(i as int)),
        decreases chars@.len() - i,
    {
        let c = chars[i];
        assert(is_digit(chars@[i as int]));
        let d: u128 = ((c as u32) - ('0' as u32)) as u128;
        assert(d == digit_value(c));
        let next = acc * 10 + d;
        assert(chars@.skip(i as int).drop_first() =~= chars@.skip(i + 1));
        assert(chars@.skip(i as int)[0] == c);
        if next > cap {
            proof {
                lemma_digits_nat_ge(next as nat, chars@.skip(i + 1));
            }
            return None;
        }
        acc = next;
        i = i + 1;
    }
    assert(chars@.skip(i as int).len() == 0);
    Some(acc)
}

/// The characters of `chars[from..e]` without the one at `dot` (if `dot`
/// is before `e`).
fn digits_without_point(chars: &[char], from: usize, dot: usize, e: usize) -> (r: Vec<char>)
    requires
        from <= dot <= e <= chars@.len(),
    ensures
        dot < e ==> r@ == chars@.subrange(from as int, dot as int) + chars@.subrange(
            dot + 1,
            e as int,
        ),
        dot == e ==> r@ == chars@.subrange(from as int, e as int),
{
    let mut digits: Vec<char> = Vec::new();
    let mut i = from;
    while i < e
        invariant
            from <= i <= e <= chars@.len(),
            from <= dot <= e,
            digits@ == (if i <= dot {
                chars@.subrange(from as int, i as int)
            } else {
                chars@.subrange(from as int, dot as int) + chars@.subrange(dot + 1, i as int)
            }),
        decreases e - i,
    {
        if i != dot {
            digits.push(chars[i]);
        }
        proof {
            if i < dot {
                assert(digits@ =~= chars@.subrange(from as int, i + 1));
            } else {
                assert(digits@ =~= chars@.subrange(from as int, dot as int) + chars@.subrange(
                    dot + 1,
                    i + 1,
                ));
            }
        }
        i = i + 1;
    }
    proof {
        if dot == e {
            assert(chars@.subrange(from as int, e as int) =~= chars@.subrange(from as int, i as int));
        }
    }
    digits
}

/// The number of leading zeros of `digits`, and the digits after them.
fn strip_zeros(digits: &Vec<char>) -> (r: (usize, Vec<char>))
    ensures
        r.0 == leading_zeros(digits@),
        r.0 <= digits@.len(),
        r.1@ == digits@.skip(r.0 as int),
{
    let mut z: usize = 0;
    proof {
        assert(digits@.skip(0) =~= digits@);
    }
    while z < digits.len() && digits[z] == '0'
        invariant
            z <= digits@.len(),
            leading_zeros(digits@) == z + leading_zeros(digits@.skip(z as int)),
        decreases digits@.len() - z,
    {
        proof {
            assert(digits@.skip(z as int).drop_first() =~= digits@.skip(z + 1));
        }
        z = z + 1;
    }
    proof {
        assert(leading_zeros(digits@.skip(z as int)) == 0);
    }
    let mut sig: Vec<char> = Vec::new();
    let mut k = z;
    while k < digits.len()
        invariant
            z <= k <= digits@.len(),
            sig@ == digits@.subrange(z as int, k as int),
        decreases digits@.len() - k,
    {
        sig.push(digits[k]);
        proof {
            assert(sig@ =~= digits@.subrange(z as int, k + 1));
        }
        k = k + 1;
    }
    proof {
        assert(sig@ =~= digits@.skip(z as int));
    }
    (z, sig)
}

/// Computes the sign, finiteness, significant digits and point position of
/// a literal.
#[verifier::rlimit(100)]
#[verifier::spinoff_prover]
pub fn decimal_form(value: &str) -> (r: DecimalForm)
    requires
        is_float_literal(value@),
    ensures
        r.negative == literal_negative(value@),
        r.finite == literal_finite(value@),
        r.finite ==> r.significant@ == significant(value@),
        r.finite ==> match r.point {
            Point::Exact(p) => p == point(value@),
            Point::Above => point(value@) >= 68,
            Point::Below => point(value@) <= -68,
        },
{
    let chars = chars_of(value);
    let ghost s = value@;
    let negative = chars.len() > 0 && chars[0] == '-';
    let from: usize = if chars.len() > 0 && (chars[0] == '+' || chars[0] == '-') {
        1
    } else {
        0
    };
    let ghost b = chars@.skip(from as int);
    proof {
        assert(chars@.skip(1) =~= chars@.drop_first());
        assert(chars@.skip(0) =~= chars@);
        assert(b == literal_body(s));
    }
    let finite = is_decimal_number_exec(chars.as_slice(), from);
    if !finite {
        return DecimalForm { negative, finite, significant: Vec::new(), point: Point::Exact(0) };
    }
    let e = first_of_exec(chars.as_slice(), from, 'e', 'E');
    let ghost el = e - from;
    let ghost m = b.take(el);
    proof {
        assert(el == first_of(b, 'e', 'E'));
        assert(m == mantissa(b));
    }
    let dotabs = first_of_exec(chars.as_slice(), from, '.', '.');
    let dot = if dotabs < e {
        dotabs
    } else {
        e
    };
    proof {
        lemma_first_of_prefix(b, '.', '.', el);
        assert(dot - from == first_of(m, '.', '.'));
        lemma_first_of_hit(m, '.', '.');
    }
    let digits = digits_without_point(chars.as_slice(), from, dot, e);
    proof {
        if dot < e {
            assert(m.take(dot - from) =~= chars@.subrange(from as int, dot as int));
            assert(m.skip(dot - from + 1) =~= chars@.subrange(dot + 1, e as int));
        } else {
            assert(m =~= chars@.subrange(from as int, e as int));
        }
        assert(digits@ == mantissa_digits(m));
    }
    let (z, sig) = strip_zeros(&digits);
    let ints: u128 = (dot - from) as u128;
    let zs: u128 = z as u128;
    let cap: u128 = ints + zs + 68;
    let exp: Option<i128> = if e == chars.len() {
        Some(0)
    } else {
        let start = e + 1;
        let ghost x = b.skip(el + 1);
        proof {
            lemma_first_of_hit(b, 'e', 'E');
            assert(x =~= chars@.skip(start as int));
        }
        if start < chars.len() && (chars[start] == '-' || chars[start] == '+') {
            proof {
                assert(x.drop_first() =~= chars@.skip(start + 1));
                assert forall|j: int| start + 1 <= j < chars@.len() implies is_digit(
                    #[trigger] chars@[j],
                ) by {
                    assert(x.drop_first()[j - start - 1] == chars@[j]);
                }
            }
            match scan_exponent(chars.as_slice(), start + 1, cap) {
                Some(v) => if chars[start] == '-' {
                    Some(-(v as i128))
                } else {
                    Some(v as i128)
                },
                None => None,
            }
        } else {
            proof {
                assert forall|j: int| start <= j < chars@.len() implies is_digit(
                    #[trigger] chars@[j],
                ) by {
                    assert(x[j - start] == chars@[j]);
                }
            }
            match scan_exponent(chars.as_slice(), start, cap) {
                Some(v) => Some(v as i128),
                None => None,
            }
        }
    };
    let p = match exp {
        Some(x) => Point::Exact((ints as i128) - (zs as i128) + x),
        None => if chars[e + 1] == '-' {
            Point::Below
        } else {
            Point::Above
        },
    };
    DecimalForm { negative, finite, significant: sig, point: p }
}


/// Whether every character of `t` from index `k` on is `0`.
fn zeros_from_exec(t: &Vec<char>, k: usize) -> (r: bool)
    ensures
        r == zeros_from(t@, k as int),
{
    let mut i = k;
    while i < t.len()
        invariant
            k <= i,
            forall|j: int| k <= j < i && j < t@.len() ==> t@[j] == '0',
        decreases t@.len() - i,
    {
        if t[i] != '0' {
            return false;
        }
        i = i + 1;
    }
    true
}

/// Whether the literal `value` is finite and above zero.
pub fn is_positive_value(value: &str) -> (r: bool)
    requires
        is_float_literal(value@),
    ensures
        r == value_positive(value@),
{
    let f = decimal_form(value);
    f.finite && !f.negative && f.significant.len() > 0
}

/// Whether the literal `value` is finite and not below zero.
pub fn is_nonnegative_value(value: &str) -> (r: bool)
    requires
        is_float_literal(value@),
    ensures
        r == value_nonnegative(value@),
{
    let f = decimal_form(value);
    f.finite && (!f.negative || f.significant.len() == 0)
}

/// Whether the literal `value` is finite and below zero.
pub fn is_negative_value(value: &str) -> (r: bool)
    requires
        is_float_literal(value@),
    ensures
        r == value_negative(value@),
{
    let f = decimal_form(value);
    f.finite && f.negative && f.significant.len() > 0
}

/// Whether the literal `value` is finite and at most 100.
pub fn is_at_most_100(value: &str) -> (r: bool)
    requires
        is_float_literal(value@),
    ensures
        r == value_at_most_100(value@),
{
    let f = decimal_form(value);
    if !f.finite {
        return false;
    }
    if f.negative || f.significant.len() == 0 {
        return true;
    }
    match f.point {
        Point::Below => true,
        Point::Above => false,
        Point::Exact(p) => p <= 2 || (p == 3 && f.significant[0] == '1' && zeros_from_exec(
            &f.significant,
            1,
        )),
    }
}

/// Whether the literal `value` is a whole number in `2..=32`.
pub fn is_whole_2_to_32(value: &str) -> (r: bool)
    requires
        is_float_literal(value@),
    ensures
        r == value_whole_2_to_32(value@),
{
    let f = decimal_form(value);
    if !f.finite || f.negative || f.significant.len() == 0 {
        return false;
    }
    let p: usize = match f.point {
        Point::Exact(p) => if p == 1 {
            1
        } else if p == 2 {
            2
        } else {
            return false;
        },
        _ => {
            return false;
        },
    };
    if !zeros_from_exec(&f.significant, p) {
        return false;
    }
    let ghost sig = f.significant@;
    proof {
        assert(sig == significant(value@));
        lemma_significant_digits(value@);
        assert(is_digit(sig[0]));
    }
    let d0: u32 = (f.significant[0] as u32) - ('0' as u32);
    let n: u32 = if p == 1 {
        d0
    } else if f.significant.len() == 1 {
        d0 * 10
    } else {
        proof {
            lemma_significant_digits(value@);
            assert(is_digit(sig[1]));
        }
        d0 * 10 + ((f.significant[1] as u32) - ('0' as u32))
    };
    assert(n == leading_value(sig, p as int));
    2 <= n && n <= 32
}

/// Lemma: the significant digits of a finite literal are decimal digits.
pub proof fn lemma_significant_digits(s: Seq<char>)
    requires
        literal_finite(s),
    ensures
        forall|i: int| 0 <= i < significant(s).len() ==> is_digit(#[trigger] significant(s)[i]),
{
    let b = literal_body(s);
    let e = first_of(b, 'e', 'E');
    let m = mantissa(b);
    let dot = first_of(m, '.', '.');
    let d = mantissa_digits(m);
    crate::numbers::lemma_first_of_hit(m, '.', '.');
    crate::numbers::lemma_first_of_hit(b, 'e', 'E');
    assert forall|i: int| 0 <= i < d.len() implies is_digit(#[trigger] d[i]) by {
        if dot < m.len() {
            if i < dot {
                assert(d[i] == m.take(dot)[i]);
            } else {
                assert(d[i] == m.skip(dot + 1)[i - dot]);
            }
        }
    }
    let z = leading_zeros(d) as int;
    lemma_leading_zeros_bound(d);
    assert forall|i: int| 0 <= i < significant(s).len() implies is_digit(
        #[trigger] significant(s)[i],
    ) by {
        assert(significant(s)[i] == d[i + z]);
    }
}

/// Lemma: the leading zeros are no more than the digits.
proof fn lemma_leading_zeros_bound(d: Seq<char>)
    ensures
        leading_zeros(d) <= d.len(),
    decreases d.len(),
{
    if d.len() > 0 && d[0] == '0' {
        lemma_leading_zeros_bound(d.drop_first());
    }
}


/// The digit of `s` at `i`, or `0` past its end.
pub open spec fn padded_digit(s: Seq<char>, i: int) -> char {
    if 0 <= i < s.len() {
        s[i]
    } else {
        '0'
    }
}

/// Whether the digits `a` come before the digits `b` from index `i` on,
/// both read as fractions `0.a` and `0.b`.
pub open spec fn fraction_less(a: Seq<char>, b: Seq<char>, i: int) -> bool
    decreases (if a.len() > b.len() {
        a.len()
    } else {
        b.len()
    }) - i,
{
    if i < 0 || (i >= a.len() && i >= b.len()) {
        false
    } else if padded_digit(a, i) != padded_digit(b, i) {
        padded_digit(a, i) < padded_digit(b, i)
    } else {
        fraction_less(a, b, i + 1)
    }
}

/// Whether the nonzero magnitude of `a` is below that of `b`.
pub open spec fn magnitude_less(a: Seq<char>, b: Seq<char>) -> bool {
    point(a) < point(b) || (point(a) == point(b) && fraction_less(
        significant(a),
        significant(b),
        0,
    ))
}

/// Whether the value of the finite literal `a` is below that of the finite
/// literal `b`.
pub open spec fn value_less(a: Seq<char>, b: Seq<char>) -> bool {
    let na = literal_negative(a) && !value_zero(a);
    let nb = literal_negative(b) && !value_zero(b);
    if na != nb {
        na
    } else if na {
        magnitude_less(b, a)
    } else if value_zero(a) {
        !value_zero(b)
    } else if value_zero(b) {
        false
    } else {
        magnitude_less(a, b)
    }
}

/// Whether `value` is finite and in `lo..=hi` (`lo` and `hi` finite).
pub open spec fn value_within(value: Seq<char>, lo: Seq<char>, hi: Seq<char>) -> bool {
    literal_finite(value) && !value_less(value, lo) && !value_less(hi, value)
}

/// Whether `value` is finite and not below `lo` (`lo` finite).
pub open spec fn value_at_least(value: Seq<char>, lo: Seq<char>) -> bool {
    literal_finite(value) && !value_less(value, lo)
}

/// Whether `value` is finite and above `lo` (`lo` finite).
pub open spec fn value_above(value: Seq<char>, lo: Seq<char>) -> bool {
    literal_finite(value) && value_less(lo, value)
}

/// Whether the fraction digits `a` come before `b` from `i` on.
fn fraction_less_exec(a: &Vec<char>, b: &Vec<char>, i: usize) -> (r: bool)
    ensures
        r == fraction_less(a@, b@, i as int),
    decreases (if a@.len() > b@.len() {
        a@.len()
    } else {
        b@.len()
    }) - i,
{
    if i >= a.len() && i >= b.len() {
        return false;
    }
    let da = if i < a.len() {
        a[i]
    } else {
        '0'
    };
    let db = if i < b.len() {
        b[i]
    } else {
        '0'
    };
    if da != db {
        da < db
    } else {
        fraction_less_exec(a, b, i + 1)
    }
}

/// Whether the nonzero magnitude of form `a` is below that of form `b`,
/// where `b`'s point is exact.
fn magnitude_less_exec(a: &DecimalForm, b: &DecimalForm, pb: i128) -> (r: bool)
    requires
        match a.point {
            Point::Exact(p) => true,
            Point::Above => pb < 4,
            Point::Below => pb > -4,
        },
    ensures
        r == (match a.point {
            Point::Exact(pa) => pa < pb || (pa == pb && fraction_less(a.significant@, b.significant@, 0)),
            Point::Above => false,
            Point::Below => true,
        }),
{
    match a.point {
        Point::Exact(pa) => pa < pb || (pa == pb && fraction_less_exec(&a.significant, &b.significant, 0)),
        Point::Above => false,
        Point::Below => true,
    }
}

/// Whether the literal is zero or has its point within `-3..=3`, so that
/// it can be compared with any literal.
pub open spec fn bounded_point(s: Seq<char>) -> bool {
    value_zero(s) || -3 <= point(s) <= 3
}

/// Whether the nonzero magnitude of form `x` is below that of form `y`,
/// one of whose points is exact and within `-3..=3`.
fn forms_magnitude_less(x: &DecimalForm, y: &DecimalForm) -> (r: bool)
    requires
        (x.point matches Point::Exact(p) && -3 <= p <= 3) || (y.point matches Point::Exact(p) && -3
            <= p <= 3),
    ensures
        match (x.point, y.point) {
            (Point::Exact(px), Point::Exact(py)) => r == (px < py || (px == py && fraction_less(
                x.significant@,
                y.significant@,
                0,
            ))),
            (Point::Above, _) => r == false,
            (Point::Below, _) => r == true,
            (_, Point::Above) => r == true,
            (_, Point::Below) => r == false,
        },
{
    match (&x.point, &y.point) {
        (Point::Exact(px), Point::Exact(py)) => *px < *py || (*px == *py && fraction_less_exec(
            &x.significant,
            &y.significant,
            0,
        )),
        (Point::Above, _) => false,
        (Point::Below, _) => true,
        (_, Point::Above) => true,
        (_, Point::Below) => false,
    }
}

/// Whether the value of the finite literal `a` is below that of the finite
/// literal `b`, one of which has a bounded point.
pub fn is_value_less(a: &str, b: &str) -> (r: bool)
    requires
        is_float_literal(a@),
        is_float_literal(b@),
        literal_finite(a@),
        literal_finite(b@),
        bounded_point(a@) || bounded_point(b@),
    ensures
        r == value_less(a@, b@),
{
    let fa = decimal_form(a);
    let fb = decimal_form(b);
    let za = fa.significant.len() == 0;
    let zb = fb.significant.len() == 0;
    let na = fa.negative && !za;
    let nb = fb.negative && !zb;
    if na != nb {
        na
    } else if na {
        forms_magnitude_less(&fb, &fa)
    } else if za {
        !zb
    } else if zb {
        false
    } else {
        forms_magnitude_less(&fa, &fb)
    }
}

/// Whether the literal `value` is finite and in `lo..=hi`.
pub fn is_within(value: &str, lo: &str, hi: &str) -> (r: bool)
    requires
        is_float_literal(value@),
        is_float_literal(lo@),
        is_float_literal(hi@),
        literal_finite(lo@),
        literal_finite(hi@),
        bounded_point(lo@),
        bounded_point(hi@),
    ensures
        r == value_within(value@, lo@, hi@),
{
    if !is_float_literal_finite(value) {
        return false;
    }
    !is_value_less(value, lo) && !is_value_less(hi, value)
}

/// Whether the literal `value` is finite and not below `lo`.
pub fn is_at_least(value: &str, lo: &str) -> (r: bool)
    requires
        is_float_literal(value@),
        is_float_literal(lo@),
        literal_finite(lo@),
        bounded_point(lo@),
    ensures
        r == value_at_least(value@, lo@),
{
    if !is_float_literal_finite(value) {
        return false;
    }
    !is_value_less(value, lo)
}

/// Whether the literal `value` is finite and above `lo`.
pub fn is_above(value: &str, lo: &str) -> (r: bool)
    requires
        is_float_literal(value@),
        is_float_literal(lo@),
        literal_finite(lo@),
        bounded_point(lo@),
    ensures
        r == value_above(value@, lo@),
{
    if !is_float_literal_finite(value) {
        return false;
    }
    is_value_less(lo, value)
}

/// Whether the literal `value` is finite.
pub fn is_float_literal_finite(value: &str) -> (r: bool)
    requires
        is_float_literal(value@),
    ensures
        r == literal_finite(value@),
{
    decimal_form(value).finite
}

/// Lemma: a whole-number literal of up to three digits without a leading
/// zero is a finite nonzero literal whose point is its length.
pub proof fn lemma_whole_bound(s: Seq<char>)
    requires
        1 <= s.len() <= 3,
        forall|i: int| 0 <= i < s.len() ==> is_digit(#[trigger] s[i]),
        s[0] != '0',
    ensures
        is_float_literal(s),
        literal_finite(s),
        !value_zero(s),
        point(s) == s.len(),
        significant(s) == s,
        bounded_point(s),
{
    lemma_first_of_hit(s, 'e', 'E');
    lemma_first_of_hit(s, '.', '.');
    assert(literal_body(s) == s);
    assert(s.take(s.len() as int) =~= s);
    assert(crate::numbers::all_digits(s));
    assert(!crate::numbers::eq_ignore_case(s, "inf"@) && !crate::numbers::eq_ignore_case(
        s,
        "nan"@,
    ) && !crate::numbers::eq_ignore_case(s, "infinity"@)) by {
        reveal_strlit("inf");
        reveal_strlit("nan");
        reveal_strlit("infinity");
        if s.len() == 3 {
            assert(crate::numbers::ascii_lower(s[0]) == s[0]);
        }
    }
    assert(s.skip(0) =~= s);
}

/// Lemma: the literal `0.d` for a nonzero digit `d` is finite and nonzero,
/// with point `0` and significant digit `d`.
pub proof fn lemma_tenths_bound(s: Seq<char>)
    requires
        s.len() == 3,
        s[0] == '0',
        s[1] == '.',
        is_digit(s[2]),
        s[2] != '0',
    ensures
        is_float_literal(s),
        literal_finite(s),
        !value_zero(s),
        point(s) == 0,
        significant(s) == seq![s[2]],
        bounded_point(s),
{
    reveal_with_fuel(first_of, 4);
    reveal_with_fuel(leading_zeros, 3);
    assert(literal_body(s) == s);
    assert(first_of(s, 'e', 'E') == 3);
    assert(s.take(3) =~= s);
    assert(first_of(s, '.', '.') == 1);
    assert(s.take(1) =~= seq!['0']);
    assert(s.skip(2) =~= seq![s[2]]);
    assert(mantissa_digits(s) =~= seq!['0', s[2]]);
    assert(leading_zeros(seq!['0', s[2]]) == 1) by {
        assert(seq!['0', s[2]].drop_first() =~= seq![s[2]]);
    }
    assert(seq!['0', s[2]].skip(1) =~= seq![s[2]]);
    assert(crate::numbers::all_digits(seq!['0']));
    assert(crate::numbers::all_digits(seq![s[2]]));
    assert(!crate::numbers::eq_ignore_case(s, "inf"@) && !crate::numbers::eq_ignore_case(
        s,
        "nan"@,
    ) && !crate::numbers::eq_ignore_case(s, "infinity"@)) by {
        reveal_strlit("inf");
        reveal_strlit("nan");
        reveal_strlit("infinity");
        assert(crate::numbers::ascii_lower(s[0]) == '0');
    }
}

/// Lemma: the literal `0` is finite and zero.
pub proof fn lemma_zero_bound(s: Seq<char>)
    requires
        s.len() == 1,
        s[0] == '0',
    ensures
        is_float_literal(s),
        literal_finite(s),
        value_zero(s),
        bounded_point(s),
{
    reveal_with_fuel(first_of, 2);
    reveal_with_fuel(leading_zeros, 2);
    assert(literal_body(s) == s);
    assert(s.take(1) =~= s);
    assert(mantissa_digits(s) =~= s);
    assert(s.drop_first().len() == 0);
    assert(crate::numbers::all_digits(s));
    assert(!crate::numbers::eq_ignore_case(s, "inf"@) && !crate::numbers::eq_ignore_case(
        s,
        "nan"@,
    ) && !crate::numbers::eq_ignore_case(s, "infinity"@)) by {
        reveal_strlit("inf");
        reveal_strlit("nan");
        reveal_strlit("infinity");
    }
}


/// The bounds the commands check against are finite literals that can be
/// compared with any literal.
pub proof fn lemma_bounds()
    ensures
        is_float_literal("0"@) && literal_finite("0"@) && bounded_point("0"@),
        is_float_literal("1"@) && literal_finite("1"@) && bounded_point("1"@),
        is_float_literal("10"@) && literal_finite("10"@) && bounded_point("10"@),
        is_float_literal("30"@) && literal_finite("30"@) && bounded_point("30"@),
        is_float_literal("100"@) && literal_finite("100"@) && bounded_point("100"@),
        is_float_literal("120"@) && literal_finite("120"@) && bounded_point("120"@),
        is_float_literal("0.1"@) && literal_finite("0.1"@) && bounded_point("0.1"@),
        is_float_literal("0.5"@) && literal_finite("0.5"@) && bounded_point("0.5"@),
        is_float_literal("40"@) && literal_finite("40"@) && bounded_point("40"@),
        is_float_literal("20"@) && literal_finite("20"@) && bounded_point("20"@),
{
    reveal_strlit("0");
    reveal_strlit("1");
    reveal_strlit("10");
    reveal_strlit("30");
    reveal_strlit("100");
    reveal_strlit("120");
    reveal_strlit("0.1");
    reveal_strlit("0.5");
    lemma_zero_bound("0"@);
    lemma_whole_bound("1"@);
    lemma_whole_bound("10"@);
    lemma_whole_bound("30"@);
    lemma_whole_bound("100"@);
    lemma_whole_bound("120"@);
    lemma_tenths_bound("0.1"@);
    lemma_tenths_bound("0.5"@);
    reveal_strlit("40");
    reveal_strlit("20");
    lemma_whole_bound("40"@);
    lemma_whole_bound("20"@);
}

/// Whether the literal's magnitude is at least 1: it is finite, nonzero,
/// and its point is at least 1 (`0.S × 10^P >= 1` exactly when `P >= 1`).
pub open spec fn magnitude_at_least_one(s: Seq<char>) -> bool {
    literal_finite(s) && !value_zero(s) && point(s) >= 1
}

/// Whether the literal `value` has magnitude at least 1.
pub fn is_magnitude_at_least_one(value: &str) -> (r: bool)
    requires
        is_float_literal(value@),
    ensures
        r == magnitude_at_least_one(value@),
{
    let f = decimal_form(value);
    if !f.finite || f.significant.len() == 0 {
        return false;
    }
    match f.point {
        Point::Exact(p) => p >= 1,
        Point::Above => true,
        Point::Below => false,
    }
}


/// Lemma: no digits come before themselves.
pub proof fn lemma_fraction_less_irreflexive(a: Seq<char>, i: int)
    ensures
        !fraction_less(a, a, i),
    decreases a.len() - i,
{
    if 0 <= i < a.len() {
        lemma_fraction_less_irreflexive(a, i + 1);
    }
}

/// Lemma: no finite literal's value is below itself.
pub proof fn lemma_value_less_irreflexive(a: Seq<char>)
    ensures
        !value_less(a, a),
{
    lemma_fraction_less_irreflexive(significant(a), 0);
}


/// The digits `d` without trailing zeros.
pub open spec fn trim_zeros(d: Seq<char>) -> Seq<char>
    decreases d.len(),
{
    if d.len() > 0 && d.last() == '0' {
        trim_zeros(d.drop_last())
    } else {
        d
    }
}

/// `n` zero digits (none when `n` is not positive).
pub open spec fn zeros(n: int) -> Seq<char> {
    Seq::new(
        if n > 0 {
            n as nat
        } else {
            0
        },
        |i: int| '0',
    )
}

/// The plain decimal text of `±0.S × 10^P`, for significant digits `S`:
/// no exponent, no leading zeros before the point but one, and no
/// trailing zeros after it (`1000`, `2.5`, `0.001`, `0`).
pub open spec fn plain_decimal(neg: bool, sig: Seq<char>, p: int) -> Seq<char> {
    let t = trim_zeros(sig);
    let body = if t.len() == 0 {
        seq!['0']
    } else if p >= t.len() {
        t + zeros(p - t.len())
    } else if p > 0 {
        t.take(p) + seq!['.'] + t.skip(p)
    } else {
        seq!['0', '.'] + zeros(-p) + t
    };
    if neg {
        seq!['-'] + body
    } else {
        body
    }
}

/// Whether the renderer spells out the literal's value times 1000: it is
/// zero, or its point lies in `-64..=61`.
pub open spec fn kilo_window(s: Seq<char>) -> bool {
    value_zero(s) || -64 <= point(s) <= 61
}

/// The text of a value given with a `k` suffix (`s` times 1000): its plain
/// decimal text when finite and within the window, and otherwise `s` with
/// its `k`.
pub open spec fn kilo_text(s: Seq<char>) -> Seq<char> {
    if is_float_literal(s) && literal_finite(s) && kilo_window(s) {
        plain_decimal(literal_negative(s), significant(s), point(s) + 3)
    } else {
        s.push('k')
    }
}

/// Appends `src[from..to]` to `out`.
fn push_range(out: &mut Vec<char>, src: &Vec<char>, from: usize, to: usize)
    requires
        from <= to <= src@.len(),
    ensures
        final(out)@ == old(out)@ + src@.subrange(from as int, to as int),
{
    let ghost start = out@;
    let mut i = from;
    while i < to
        invariant
            from <= i <= to <= src@.len(),
            out@ == start + src@.subrange(from as int, i as int),
        decreases to - i,
    {
        out.push(src[i]);
        proof {
            assert(out@ =~= start + src@.subrange(from as int, i + 1));
        }
        i = i + 1;
    }
}

/// Appends `n` zero digits to `out`.
fn push_zeros(out: &mut Vec<char>, n: usize)
    ensures
        final(out)@ == old(out)@ + zeros(n as int),
{
    let ghost start = out@;
    let mut i: usize = 0;
    while i < n
        invariant
            i <= n,
            out@ == start + zeros(i as int),
        decreases n - i,
    {
        out.push('0');
        proof {
            assert(out@ =~= start + zeros(i + 1));
        }
        i = i + 1;
    }
}

/// The plain decimal text of `±0.S × 10^P`.
fn plain_decimal_exec(neg: bool, sig: &Vec<char>, p: i128) -> (r: Vec<char>)
    requires
        -64 <= p <= 64,
    ensures
        r@ == plain_decimal(neg, sig@, p as int),
{
    let mut e = sig.len();
    proof {
        assert(sig@.take(e as int) =~= sig@);
    }
    while e > 0 && sig[e - 1] == '0'
        invariant
            e <= sig@.len(),
            trim_zeros(sig@) == trim_zeros(sig@.take(e as int)),
        decreases e,
    {
        proof {
            assert(sig@.take(e as int).drop_last() =~= sig@.take(e - 1));
        }
        e = e - 1;
    }
    proof {
        assert(trim_zeros(sig@.take(e as int)) == sig@.take(e as int));
    }
    let ghost t = sig@.take(e as int);
    let mut out: Vec<char> = Vec::new();
    if neg {
        out.push('-');
    }
    let ghost head = out@;
    if e == 0 {
        out.push('0');
        proof {
            assert(out@ =~= head + seq!['0']);
        }
    } else if p >= e as i128 {
        push_range(&mut out, sig, 0, e);
        push_zeros(&mut out, (p - e as i128) as usize);
        proof {
            assert(sig@.subrange(0, e as int) =~= t);
            assert(out@ =~= head + (t + zeros(p - e)));
        }
    } else if p > 0 {
        let q = p as usize;
        push_range(&mut out, sig, 0, q);
        out.push('.');
        push_range(&mut out, sig, q, e);
        proof {
            assert(sig@.subrange(0, q as int) =~= t.take(q as int));
            assert(sig@.subrange(q as int, e as int) =~= t.skip(q as int));
            assert(out@ =~= head + (t.take(q as int) + seq!['.'] + t.skip(q as int)));
        }
    } else {
        out.push('0');
        out.push('.');
        push_zeros(&mut out, (-p) as usize);
        push_range(&mut out, sig, 0, e);
        proof {
            assert(sig@.subrange(0, e as int) =~= t);
            assert(out@ =~= head + (seq!['0', '.'] + zeros(-p) + t));
        }
    }
    proof {
        if neg {
            assert(head =~= seq!['-']);
        } else {
            assert(head =~= Seq::<char>::empty());
            assert(out@ =~= Seq::<char>::empty() + out@);
        }
    }
    out
}

/// The text of the value `value` (given with a `k` suffix) times 1000.
pub fn render_kilo(value: &str) -> (r: String)
    ensures
        r@ == kilo_text(value@),
{
    if !crate::numbers::is_float_text(value) {
        let mut r = crate::text::owned(value);
        crate::text::push_char(&mut r, 'k');
        return r;
    }
    let f = decimal_form(value);
    let spelled = if !f.finite {
        None
    } else if f.significant.len() == 0 {
        Some(plain_decimal_exec(f.negative, &f.significant, 0))
    } else {
        match f.point {
            Point::Exact(p) => if -64 <= p && p <= 61 {
                Some(plain_decimal_exec(f.negative, &f.significant, p + 3))
            } else {
                None
            },
            _ => None,
        }
    };
    match spelled {
        Some(chars) => {
            let r = crate::text::string_from_range(chars.as_slice(), 0, chars.len());
            proof {
                assert(chars@.subrange(0, chars@.len() as int) =~= chars@);
                if f.significant.len() == 0 {
                    assert(trim_zeros(f.significant@) =~= Seq::<char>::empty());
                }
            }
            r
        },
        None => {
            let mut r = crate::text::owned(value);
            crate::text::push_char(&mut r, 'k');
            r
        },
    }
}


/// Lemma: trimming trailing zeros keeps a prefix of the digits.
proof fn lemma_trim_zeros(d: Seq<char>)
    ensures
        trim_zeros(d).len() <= d.len(),
        forall|i: int| 0 <= i < trim_zeros(d).len() ==> #[trigger] trim_zeros(d)[i] == d[i],
    decreases d.len(),
{
    if d.len() > 0 && d.last() == '0' {
        lemma_trim_zeros(d.drop_last());
    }
}

/// Whether every character of `t` is a digit or `.`.
pub open spec fn digits_or_point(t: Seq<char>) -> bool {
    forall|i: int| 0 <= i < t.len() ==> is_digit(#[trigger] t[i]) || t[i] == '.'
}

/// Lemma: text of digits and one point at `d` (or none, `d == len`) whose
/// digits are all digits is a decimal number when it has a digit.
proof fn lemma_simple_decimal(b: Seq<char>, d: int)
    requires
        0 <= d <= b.len(),
        b.len() >= 1,
        forall|i: int| 0 <= i < b.len() && i != d ==> is_digit(#[trigger] b[i]),
        d < b.len() ==> b[d] == '.' && b.len() >= 2,
    ensures
        is_decimal_number(b),
        first_of(b, 'e', 'E') == b.len(),
        first_of(b, '.', '.') == d,
        !crate::numbers::eq_ignore_case(b, "inf"@),
        !crate::numbers::eq_ignore_case(b, "infinity"@),
        !crate::numbers::eq_ignore_case(b, "nan"@),
{
    crate::command_splice::lemma_first_of(b, 'e', 'E');
    let e = first_of(b, 'e', 'E');
    if e < b.len() {
        assert(b[e] == 'e' || b[e] == 'E');
        assert(false);
    }
    assert(b.take(e) =~= b);
    crate::command_splice::lemma_first_of(b, '.', '.');
    let f = first_of(b, '.', '.');
    if f < d {
        assert(is_digit(b[f]));
    }
    if d < b.len() && f > d {
        assert(b[d] != '.');
    }
    if d == b.len() && f < b.len() {
        assert(is_digit(b[f]));
    }
    assert(f == d);
    assert(crate::numbers::all_digits(b.take(d))) by {
        assert forall|i: int| 0 <= i < b.take(d).len() implies is_digit(#[trigger] b.take(d)[i]) by {
            assert(b.take(d)[i] == b[i]);
        }
    }
    if d < b.len() {
        assert(crate::numbers::all_digits(b.skip(d + 1))) by {
            assert forall|i: int| 0 <= i < b.skip(d + 1).len() implies is_digit(
                #[trigger] b.skip(d + 1)[i],
            ) by {
                assert(b.skip(d + 1)[i] == b[d + 1 + i]);
            }
        }
    } else {
        assert(b.take(d) =~= b);
    }
    reveal_strlit("inf");
    reveal_strlit("infinity");
    reveal_strlit("nan");
    assert(crate::numbers::ascii_lower(b[0]) == b[0] || b[0] == '.');
}

/// Lemma: the plain decimal text of significant digits is a number
/// literal that does not look like an option and ends with a digit.
pub proof fn lemma_plain_decimal_literal(neg: bool, sig: Seq<char>, p: int)
    requires
        forall|i: int| 0 <= i < sig.len() ==> is_digit(#[trigger] sig[i]),
    ensures
        is_float_literal(plain_decimal(neg, sig, p)),
        !crate::command::option_like(plain_decimal(neg, sig, p)),
        is_digit(plain_decimal(neg, sig, p).last()),
{
    let t = trim_zeros(sig);
    lemma_trim_zeros(sig);
    let body = if t.len() == 0 {
        seq!['0']
    } else if p >= t.len() {
        t + zeros(p - t.len())
    } else if p > 0 {
        t.take(p) + seq!['.'] + t.skip(p)
    } else {
        seq!['0', '.'] + zeros(-p) + t
    };
    assert forall|i: int| 0 <= i < t.len() implies is_digit(#[trigger] t[i]) by {
        assert(t[i] == sig[i]);
    }
    let d: int = if t.len() == 0 || p >= t.len() {
        body.len() as int
    } else if p > 0 {
        p
    } else {
        1
    };
    assert forall|i: int| 0 <= i < body.len() && i != d implies is_digit(#[trigger] body[i]) by {
        if t.len() == 0 {
        } else if p >= t.len() {
            if i >= t.len() {
                assert(body[i] == zeros(p - t.len())[i - t.len()]);
            }
        } else if p > 0 {
            if i < p {
                assert(body[i] == t[i]);
            } else {
                assert(body[i] == t[i - 1]);
            }
        } else {
            if i >= 2 && i < 2 - p {
                assert(body[i] == zeros(-p)[i - 2]);
            } else if i >= 2 - p {
                assert(body[i] == t[i - 2 + p]);
            }
        }
    }
    lemma_simple_decimal(body, d);
    let text = plain_decimal(neg, sig, p);
    if neg {
        assert(text == seq!['-'] + body);
        assert(text.drop_first() =~= body);
        assert(text.last() == body.last());
        assert(is_digit(body[0]) || body[0] == '.');
        assert(text[1] == body[0]);
        if body[0] == '.' {
            assert(d == 0);
            assert(false);
        }
    } else {
        assert(text == body);
        if body.len() >= 1 && body[0] == '-' {
            assert(is_digit(body[0]) || body[0] == '.');
        }
    }
    assert(d != body.len() - 1 || t.len() == 0);
    assert(is_digit(body.last()));
}


/// Lemma: the digits `trim_zeros(d)` leaves off are zeros.
pub proof fn lemma_trimmed_zeros(d: Seq<char>)
    ensures
        trim_zeros(d).len() <= d.len(),
        forall|i: int| 0 <= i < trim_zeros(d).len() ==> #[trigger] trim_zeros(d)[i] == d[i],
        forall|i: int| trim_zeros(d).len() <= i < d.len() ==> #[trigger] d[i] == '0',
        trim_zeros(d).len() > 0 ==> trim_zeros(d).last() != '0',
    decreases d.len(),
{
    if d.len() > 0 && d.last() == '0' {
        lemma_trimmed_zeros(d.drop_last());
        assert forall|i: int| trim_zeros(d).len() <= i < d.len() implies #[trigger] d[i] == '0' by {
            if i < d.len() - 1 {
                assert(d.drop_last()[i] == d[i]);
            }
        }
    }
}

/// Lemma: leading zeros of `zeros(k) + t`, for `t` not starting with `0`.
proof fn lemma_leading_zeros_prefix(k: int, t: Seq<char>)
    requires
        k >= 0,
        t.len() > 0,
        t[0] != '0',
    ensures
        leading_zeros(zeros(k) + t) == k,
        (zeros(k) + t).skip(k) =~= t,
    decreases k,
{
    if k == 0 {
        assert(zeros(0) + t =~= t);
    } else {
        assert((zeros(k) + t).drop_first() =~= zeros(k - 1) + t);
        lemma_leading_zeros_prefix(k - 1, t);
    }
}

/// Lemma: the plain decimal text of nonzero significant digits `sig`
/// (digits, without a leading zero) has the value `±0.sig × 10^p`: its
/// sign, its point `p`, and significant digits that agree with `sig`
/// digit by digit (trailing zeros aside).
#[verifier::rlimit(60)]
#[verifier::spinoff_prover]
pub proof fn lemma_plain_decimal_value(neg: bool, sig: Seq<char>, p: int)
    requires
        forall|i: int| 0 <= i < sig.len() ==> is_digit(#[trigger] sig[i]),
        sig.len() > 0 ==> sig[0] != '0',
    ensures
        literal_finite(plain_decimal(neg, sig, p)),
        literal_negative(plain_decimal(neg, sig, p)) == neg,
        value_zero(plain_decimal(neg, sig, p)) == (trim_zeros(sig).len() == 0),
        trim_zeros(sig).len() > 0 ==> point(plain_decimal(neg, sig, p)) == p,
        forall|i: int|
            #![trigger padded_digit(significant(plain_decimal(neg, sig, p)), i)]
            padded_digit(significant(plain_decimal(neg, sig, p)), i) == padded_digit(sig, i),
{
    let t = trim_zeros(sig);
    lemma_trimmed_zeros(sig);
    lemma_plain_decimal_literal(neg, sig, p);
    let body = if t.len() == 0 {
        seq!['0']
    } else if p >= t.len() {
        t + zeros(p - t.len())
    } else if p > 0 {
        t.take(p) + seq!['.'] + t.skip(p)
    } else {
        seq!['0', '.'] + zeros(-p) + t
    };
    let d: int = if t.len() == 0 || p >= t.len() {
        body.len() as int
    } else if p > 0 {
        p
    } else {
        1
    };
    assert forall|i: int| 0 <= i < t.len() implies is_digit(#[trigger] t[i]) by {
        assert(t[i] == sig[i]);
    }
    assert forall|i: int| 0 <= i < body.len() && i != d implies is_digit(#[trigger] body[i]) by {
        if t.len() == 0 {
        } else if p >= t.len() {
            if i >= t.len() {
                assert(body[i] == zeros(p - t.len())[i - t.len()]);
            }
        } else if p > 0 {
            if i < p {
                assert(body[i] == t[i]);
            } else {
                assert(body[i] == t[i - 1]);
            }
        } else {
            if i >= 2 && i < 2 - p {
                assert(body[i] == zeros(-p)[i - 2]);
            } else if i >= 2 - p {
                assert(body[i] == t[i - 2 + p]);
            }
        }
    }
    lemma_simple_decimal(body, d);
    let text = plain_decimal(neg, sig, p);
    if neg {
        assert(text == seq!['-'] + body);
        assert(text.drop_first() =~= body);
    } else {
        assert(text == body);
    }
    assert(literal_body(text) == body) by {
        if !neg {
            assert(is_digit(body[0]) || body[0] == '.');
        }
    }
    assert(mantissa(body) =~= body);
    assert(exponent(body) == 0);
    let md = mantissa_digits(body);
    assert(significant(text) == md.skip(leading_zeros(md) as int));
    assert(point(text) == d - leading_zeros(md));
    if t.len() == 0 {
        assert(md =~= seq!['0']);
        assert(leading_zeros(md) == 1) by {
            reveal_with_fuel(leading_zeros, 2);
            assert(md.drop_first().len() == 0);
        }
        assert(significant(text).len() == 0);
    } else {
        assert(t[0] == sig[0]);
        if p >= t.len() {
            assert(md == body);
            assert(leading_zeros(md) == 0);
            assert(md.skip(0) =~= md);
            assert forall|i: int| #![trigger padded_digit(significant(text), i)]
                padded_digit(significant(text), i) == padded_digit(sig, i) by {
                if 0 <= i < t.len() {
                    assert(body[i] == t[i]);
                } else if t.len() <= i < body.len() {
                    assert(body[i] == zeros(p - t.len())[i - t.len()]);
                }
            }
        } else if p > 0 {
            assert(md =~= t);
            assert(leading_zeros(md) == 0);
            assert(md.skip(0) =~= md);
        } else {
            assert(md =~= zeros(1 - p) + t) by {
                assert(seq!['0'] + zeros(-p) =~= zeros(1 - p));
                assert(body.take(1) =~= seq!['0']);
                assert(body.skip(2) =~= zeros(-p) + t);
            }
            lemma_leading_zeros_prefix(1 - p, t);
        }
    }
}

/// The larger of two lengths.
pub open spec fn max_len(a: Seq<char>, b: Seq<char>) -> int {
    if a.len() > b.len() {
        a.len() as int
    } else {
        b.len() as int
    }
}

/// Lemma: digits that agree from `i` on are not less one than the other.
proof fn lemma_fraction_equal_tail(x: Seq<char>, y: Seq<char>, i: int)
    requires
        forall|j: int| j >= i ==> #[trigger] padded_digit(x, j) == padded_digit(y, j),
    ensures
        !fraction_less(x, y, i),
    decreases max_len(x, y) - i,
{
    if !(i < 0 || (i >= x.len() && i >= y.len())) {
        assert(padded_digit(x, i) == padded_digit(y, i));
        lemma_fraction_equal_tail(x, y, i + 1);
    }
}

/// Lemma: comparing fractions sees digits only, not trailing zeros: two
/// digit sequences that agree digit by digit compare alike with any other.
proof fn lemma_fraction_less_padded(a: Seq<char>, a2: Seq<char>, b: Seq<char>, i: int)
    requires
        forall|j: int| #[trigger] padded_digit(a, j) == padded_digit(a2, j),
    ensures
        fraction_less(a, b, i) == fraction_less(a2, b, i),
        fraction_less(b, a, i) == fraction_less(b, a2, i),
    decreases max_len(a, a2) + b.len() - i,
{
    if i >= 0 {
        assert(padded_digit(a, i) == padded_digit(a2, i));
        if i >= a.len() && i >= b.len() && i >= a2.len() {
        } else if i >= a.len() && i >= b.len() {
            assert forall|j: int| j >= i implies #[trigger] padded_digit(a2, j) == padded_digit(b, j) by {
                assert(padded_digit(a, j) == padded_digit(a2, j));
            }
            lemma_fraction_equal_tail(a2, b, i);
            lemma_fraction_equal_tail(b, a2, i);
        } else if i >= a2.len() && i >= b.len() {
            assert forall|j: int| j >= i implies #[trigger] padded_digit(a, j) == padded_digit(b, j) by {
                assert(padded_digit(a, j) == padded_digit(a2, j));
            }
            lemma_fraction_equal_tail(a, b, i);
            lemma_fraction_equal_tail(b, a, i);
        } else {
            lemma_fraction_less_padded(a, a2, b, i + 1);
        }
    }
}

/// Lemma: digit sequences that agree digit by digit have the same digits
/// without trailing zeros.
proof fn lemma_trim_padded(a: Seq<char>, b: Seq<char>)
    requires
        forall|j: int| #[trigger] padded_digit(a, j) == padded_digit(b, j),
    ensures
        trim_zeros(a) == trim_zeros(b),
    decreases a.len() + b.len(),
{
    if a.len() > 0 && a.last() == '0' {
        assert forall|j: int| #[trigger] padded_digit(a.drop_last(), j) == padded_digit(b, j) by {
            assert(padded_digit(a, j) == padded_digit(b, j));
        }
        lemma_trim_padded(a.drop_last(), b);
    } else if b.len() > 0 && b.last() == '0' {
        assert forall|j: int| #[trigger] padded_digit(a, j) == padded_digit(b.drop_last(), j) by {
            assert(padded_digit(a, j) == padded_digit(b, j));
        }
        lemma_trim_padded(a, b.drop_last());
    } else {
        if a.len() > b.len() {
            assert(padded_digit(a, a.len() - 1) == padded_digit(b, a.len() - 1));
        } else if b.len() > a.len() {
            assert(padded_digit(a, b.len() - 1) == padded_digit(b, b.len() - 1));
        }
        assert forall|j: int| 0 <= j < a.len() implies a[j] == b[j] by {
            assert(padded_digit(a, j) == padded_digit(b, j));
        }
        assert(a =~= b);
    }
}

/// Whether two finite literals have the same value, as their parts show:
/// both zero, or the same sign, point and digits.
pub open spec fn same_value(s: Seq<char>, t: Seq<char>) -> bool {
    &&& literal_finite(s) && literal_finite(t)
    &&& value_zero(s) == value_zero(t)
    &&& !value_zero(s) ==> {
        &&& literal_negative(s) == literal_negative(t)
        &&& point(s) == point(t)
        &&& forall|j: int| #[trigger] padded_digit(significant(s), j) == padded_digit(significant(t), j)
    }
}

/// Lemma: literals of the same value compare alike with any other.
pub proof fn lemma_same_value_less(s: Seq<char>, t: Seq<char>, x: Seq<char>)
    requires
        same_value(s, t),
    ensures
        value_less(s, x) == value_less(t, x),
        value_less(x, s) == value_less(x, t),
{
    lemma_fraction_less_padded(significant(s), significant(t), significant(x), 0);
}

/// Lemma: the plain decimal text of a literal in the rendering window has
/// the literal's value, and is its own plain decimal text.
pub proof fn lemma_decimal_text_value(s: Seq<char>)
    requires
        is_float_literal(s),
        literal_finite(s),
    ensures
        is_float_literal(decimal_text(s)),
        same_value(s, decimal_text(s)),
        decimal_text(decimal_text(s)) == decimal_text(s),
        !crate::command::option_like(decimal_text(s)),
{
    if value_zero(s) || -64 <= point(s) <= 64 {
        let t = decimal_text(s);
        let sig = significant(s);
        lemma_significant_digits(s);
        lemma_significant_no_leading_zero(s);
        lemma_plain_decimal_value(literal_negative(s), sig, point(s));
        lemma_plain_decimal_literal(literal_negative(s), sig, point(s));
        lemma_trimmed_zeros(sig);
        assert(value_zero(s) == (trim_zeros(sig).len() == 0)) by {
            if sig.len() > 0 {
                assert(sig[0] != '0');
                assert(trim_zeros(sig).len() > 0) by {
                    if trim_zeros(sig).len() == 0 {
                        assert(sig[0] == '0');
                    }
                }
            }
        }
        let st = significant(t);
        assert forall|j: int| #[trigger] padded_digit(significant(s), j) == padded_digit(st, j) by {
            assert(padded_digit(st, j) == padded_digit(sig, j));
        }
        lemma_trim_padded(st, sig);
    } else {
        lemma_not_option_like_literal(s);
        lemma_same_value_refl(s);
    }
}

/// Lemma: the digit after the leading zeros is not a zero.
proof fn lemma_after_leading_zeros(d: Seq<char>)
    ensures
        leading_zeros(d) <= d.len(),
        leading_zeros(d) < d.len() ==> d[leading_zeros(d) as int] != '0',
    decreases d.len(),
{
    if d.len() > 0 && d[0] == '0' {
        lemma_after_leading_zeros(d.drop_first());
        if leading_zeros(d) < d.len() {
            assert(d[leading_zeros(d) as int] == d.drop_first()[leading_zeros(d.drop_first()) as int]);
        }
    }
}

/// Lemma: the significant digits do not start with a zero.
pub proof fn lemma_significant_no_leading_zero(s: Seq<char>)
    ensures
        significant(s).len() > 0 ==> significant(s)[0] != '0',
{
    let d = mantissa_digits(mantissa(literal_body(s)));
    lemma_after_leading_zeros(d);
    if significant(s).len() > 0 {
        assert(significant(s)[0] == d[leading_zeros(d) as int]);
    }
}

/// Lemma: a finite literal does not look like an option.
proof fn lemma_not_option_like_literal(s: Seq<char>)
    requires
        literal_finite(s),
    ensures
        !crate::command::option_like(s),
{
    if s.len() >= 2 && s[0] == '-' {
        let b = s.drop_first();
        assert(literal_body(s) == b);
        let e = first_of(b, 'e', 'E');
        crate::command_splice::lemma_first_of(b, 'e', 'E');
        let m = b.take(e);
        let dot = first_of(m, '.', '.');
        crate::command_splice::lemma_first_of(m, '.', '.');
        assert(m.len() > 0);
        if dot == 0 {
            assert(m[0] == '.');
        } else {
            assert(m.take(dot)[0] == m[0]);
        }
        assert(m[0] == s[1]);
    }
}

/// Lemma: plain decimal text within the rendering window is its own plain
/// decimal text, has its sign, and is zero exactly when its digits are.
pub proof fn lemma_plain_idempotent(neg: bool, sig: Seq<char>, q: int)
    requires
        forall|i: int| 0 <= i < sig.len() ==> is_digit(#[trigger] sig[i]),
        sig.len() > 0 ==> sig[0] != '0',
        trim_zeros(sig).len() == 0 || -64 <= q <= 64,
    ensures
        decimal_text(plain_decimal(neg, sig, q)) == plain_decimal(neg, sig, q),
        is_float_literal(plain_decimal(neg, sig, q)),
        literal_finite(plain_decimal(neg, sig, q)),
        literal_negative(plain_decimal(neg, sig, q)) == neg,
        value_zero(plain_decimal(neg, sig, q)) == (trim_zeros(sig).len() == 0),
        !crate::command::option_like(plain_decimal(neg, sig, q)),
        is_digit(plain_decimal(neg, sig, q).last()),
{
    let text = plain_decimal(neg, sig, q);
    lemma_plain_decimal_value(neg, sig, q);
    lemma_plain_decimal_literal(neg, sig, q);
    lemma_trim_padded(significant(text), sig);
}

/// Lemma: the default values the renderers write are their own plain
/// decimal text.
pub proof fn lemma_plain_constants()
    ensures
        decimal_text("0"@) == "0"@ && decimal_text("1"@) == "1"@,
        decimal_text("40"@) == "40"@ && decimal_text("0.5"@) == "0.5"@,
        is_float_literal("0.5"@) && literal_finite("0.5"@) && !crate::command::option_like("0.5"@),
        is_float_literal("0"@) && literal_finite("0"@) && !crate::command::option_like("0"@),
        is_float_literal("1"@) && literal_finite("1"@) && !crate::command::option_like("1"@),
        is_float_literal("40"@) && literal_finite("40"@) && !crate::command::option_like("40"@),
{
    reveal_strlit("0");
    reveal_strlit("1");
    reveal_strlit("40");
    reveal_strlit("0.5");
    assert(trim_zeros(seq!['5']) == seq!['5']);
    assert("0.5"@ =~= plain_decimal(false, seq!['5'], 0));
    lemma_plain_idempotent(false, seq!['5'], 0);
    assert(trim_zeros(Seq::<char>::empty()) == Seq::<char>::empty());
    assert(trim_zeros(seq!['1']) == seq!['1']);
    assert(trim_zeros(seq!['4']) == seq!['4']);
    assert(zeros(0) =~= Seq::<char>::empty());
    assert(zeros(1) =~= seq!['0']);
    assert("0"@ =~= plain_decimal(false, Seq::<char>::empty(), 1));
    assert("1"@ =~= plain_decimal(false, seq!['1'], 1));
    assert("40"@ =~= plain_decimal(false, seq!['4'], 2));
    lemma_plain_idempotent(false, Seq::<char>::empty(), 1);
    lemma_plain_idempotent(false, seq!['1'], 1);
    lemma_plain_idempotent(false, seq!['4'], 2);
}

/// Lemma: a literal has its own value.
proof fn lemma_same_value_refl(s: Seq<char>)
    requires
        literal_finite(s),
    ensures
        same_value(s, s),
{
}


/// The plain decimal text of a number literal's value, when it is finite
/// and zero or with its point in `-64..=64`; otherwise the text as given.
pub open spec fn decimal_text(s: Seq<char>) -> Seq<char> {
    if is_float_literal(s) && literal_finite(s) && (value_zero(s) || -64 <= point(s) <= 64) {
        plain_decimal(literal_negative(s), significant(s), point(s))
    } else {
        s
    }
}

/// The plain decimal text of the value of `value`.
pub fn render_decimal(value: &str) -> (r: String)
    ensures
        r@ == decimal_text(value@),
{
    if !crate::numbers::is_float_text(value) {
        return crate::text::owned(value);
    }
    let f = decimal_form(value);
    let spelled = if !f.finite {
        None
    } else if f.significant.len() == 0 {
        Some(plain_decimal_exec(f.negative, &f.significant, 0))
    } else {
        match f.point {
            Point::Exact(p) => if -64 <= p && p <= 64 {
                Some(plain_decimal_exec(f.negative, &f.significant, p))
            } else {
                None
            },
            _ => None,
        }
    };
    match spelled {
        Some(chars) => {
            let r = crate::text::string_from_range(chars.as_slice(), 0, chars.len());
            proof {
                assert(chars@.subrange(0, chars@.len() as int) =~= chars@);
                if f.significant.len() == 0 {
                    assert(trim_zeros(f.significant@) =~= Seq::<char>::empty());
                }
            }
            r
        },
        None => crate::text::owned(value),
    }
}

} // verus!
