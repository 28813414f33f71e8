//! Fixed-point decimal numbers: a 96-bit signed mantissa and a decimal scale
//! of at most 28 digits. The arithmetic itself is done by `rust_decimal`; this
//! module holds the value as plain integers so that contracts can speak of it.
use rust_decimal::Error as DecimalLibError;
use crate::text::string_push;
use vstd::prelude::*;

verus! {

/// Largest magnitude of a mantissa: 2^96 - 1.
pub const MAX_MANTISSA: i128 = 0xFFFF_FFFF_FFFF_FFFF_FFFF_FFFFi128;

/// Largest number of fractional digits.
pub const MAX_SCALE: u32 = 28;

/// 10 to the power `n`.
pub open spec fn pow10(n: nat) -> int
    decreases n,
{
    if n == 0 {
        1
    } else {
        10 * pow10((n - 1) as nat)
    }
}

pub proof fn lemma_pow10_pos(n: nat)
    ensures
        pow10(n) >= 1,
    decreases n,
{
    if n > 0 {
        lemma_pow10_pos((n - 1) as nat);
    }
}

pub proof fn lemma_pow10_mono(a: nat, b: nat)
    requires
        a <= b,
    ensures
        pow10(a) <= pow10(b),
    decreases b,
{
    if a < b {
        lemma_pow10_mono(a, (b - 1) as nat);
        lemma_pow10_pos((b - 1) as nat);
    }
}

pub open spec fn abs(x: int) -> int {
    if x < 0 {
        -x
    } else {
        x
    }
}

/// A decimal number `mantissa / 10^scale`.
#[derive(Clone, Copy, Debug)]
pub struct Dec {
    mantissa: i128,
    scale: u32,
}

/// Numerical comparison of two decimals: -1, 0 or 1 as `a` is below, equal to
/// or above `b`.
pub open spec fn spec_compare(a: Dec, b: Dec) -> int {
    let l = a.m() * pow10(b.s());
    let r = b.m() * pow10(a.s());
    if l < r {
        -1
    } else if l == r {
        0
    } else {
        1
    }
}

/// The decimal digits of `n`, most significant first; empty for zero.
pub open spec fn digits(n: nat) -> Seq<char>
    decreases n,
{
    if n == 0 {
        Seq::empty()
    } else {
        digits(n / 10).push(digit_char((n % 10) as nat))
    }
}

pub open spec fn digit_char(d: nat) -> char {
    (48 + d) as char
}

pub open spec fn zeros(n: nat) -> Seq<char> {
    Seq::new(n, |i: int| '0')
}

/// The text of `m / 10^s`: a sign for negative numbers, the whole part ("0"
/// when empty) and, for a positive scale, a point and exactly `s` digits.
pub open spec fn spec_to_string(m: int, s: nat) -> Seq<char> {
    let d0 = digits(abs(m) as nat);
    let d = if d0.len() < s {
        zeros((s - d0.len()) as nat) + d0
    } else {
        d0
    };
    let whole = d.subrange(0, d.len() - s);
    let frac = d.subrange(d.len() - s, d.len() as int);
    let body = (if whole.len() == 0 {
        seq!['0']
    } else {
        whole
    }) + (if s > 0 {
        seq!['.'] + frac
    } else {
        Seq::empty()
    });
    if m < 0 {
        seq!['-'] + body
    } else {
        body
    }
}

/// Rounding of `m / 10^s` to `dp` fractional digits, a midpoint away from zero.
pub open spec fn spec_round_dp(m: int, s: nat, dp: nat) -> (int, nat) {
    if s <= dp {
        (m, s)
    } else {
        let k = (s - dp) as nat;
        let q = abs(m) / pow10(k);
        let r = abs(m) % pow10(k);
        let q2 = if 2 * r >= pow10(k) {
            q + 1
        } else {
            q
        };
        (if m < 0 {
            -q2
        } else {
            q2
        }, dp)
    }
}

/// Trailing zeros of the fraction stripped; zero becomes `0` with scale 0.
pub open spec fn spec_normalize(m: int, s: nat) -> (int, nat)
    decreases s,
{
    if m == 0 {
        (0, 0)
    } else if s == 0 || m % 10 != 0 {
        (m, s)
    } else {
        spec_normalize(m / 10, (s - 1) as nat)
    }
}

/// The decimal text of an integer, as `Display` writes it: a minus sign for
/// negative numbers and the digits of the magnitude, "0" for zero.
pub open spec fn spec_int_text(n: int) -> Seq<char> {
    if n == 0 {
        seq!['0']
    } else if n < 0 {
        seq!['-'] + digits((-n) as nat)
    } else {
        digits(n as nat)
    }
}

/// The digits of `n`, "0" for zero.
pub open spec fn spec_uint_text(n: nat) -> Seq<char> {
    if n == 0 {
        seq!['0']
    } else {
        digits(n)
    }
}

/// Appends the digits of a number, "0" for zero.
pub fn push_uint_text(out: &mut String, mag: u64)
    ensures
        final(out)@ == old(out)@ + spec_uint_text(mag as nat),
{
    if mag == 0 {
        string_push(out, '0');
        assert(final(out)@ =~= old(out)@ + seq!['0']);
        return;
    }
    let mut rest: u64 = mag;
    let mut acc: Vec<char> = Vec::new();
    assert(digits(mag as nat) =~= digits(rest as nat) + acc@);
    while rest > 0
        invariant
            digits(mag as nat) == digits(rest as nat) + acc@,
        decreases rest,
    {
        let d: u64 = rest % 10;
        let c = ((48 + d) as u8) as char;
        assert(c == digit_char(d as nat));
        let ghost old_acc = acc@;
        acc.insert(0, c);
        assert(digits(rest as nat) == digits((rest / 10) as nat).push(c));
        rest = rest / 10;
        assert(digits(mag as nat) =~= digits(rest as nat) + acc@) by {
            assert(acc@ =~= seq![c] + old_acc);
        }
    }
    assert(digits(0) =~= Seq::<char>::empty());
    assert(acc@ =~= digits(mag as nat));
    let mut i: usize = 0;
    let ghost start = out@;
    while i < acc.len()
        invariant
            i <= acc@.len(),
            out@ == start + acc@.subrange(0, i as int),
        decreases acc@.len() - i,
    {
        string_push(out, acc[i]);
        i = i + 1;
        assert(out@ =~= start + acc@.subrange(0, i as int));
    }
    assert(acc@.subrange(0, acc@.len() as int) =~= acc@);
}

/// The decimal text of an unsigned integer.
pub fn uint_text(n: u64) -> (r: String)
    ensures
        r@ == spec_uint_text(n as nat),
{
    let mut s = String::new();
    push_uint_text(&mut s, n);
    assert(s@ =~= spec_uint_text(n as nat));
    s
}

/// The decimal text of an integer.
pub fn int_text(n: i64) -> (r: String)
    ensures
        r@ == spec_int_text(n as int),
{
    let mut out = String::new();
    if n < 0 {
        string_push(&mut out, '-');
    }
    let mag: u64 = if n < 0 {
        if n == i64::MIN {
            9223372036854775808u64
        } else {
            (-n) as u64
        }
    } else {
        n as u64
    };
    push_uint_text(&mut out, mag);
    assert(out@ =~= spec_int_text(n as int));
    out
}

/// What `rust_decimal` computes for `a * b`, `None` where it overflows.
pub uninterp spec fn spec_checked_mul(a: Dec, b: Dec) -> Option<Dec>;

/// What `rust_decimal` computes for `a / b`, `None` where it overflows or `b` is zero.
pub uninterp spec fn spec_checked_div(a: Dec, b: Dec) -> Option<Dec>;

/// What `rust_decimal` computes for `a - b`, `None` where it overflows.
pub uninterp spec fn spec_checked_sub(a: Dec, b: Dec) -> Option<Dec>;

/// What `rust_decimal` computes for `a + b`, `None` where it overflows.
pub uninterp spec fn spec_checked_add(a: Dec, b: Dec) -> Option<Dec>;

/// What `rust_decimal` parses from a text, `None` where it refuses it.
pub uninterp spec fn spec_parse_decimal(s: Seq<char>) -> Option<Dec>;

/// Error returned by [`Dec::from_str`].
#[derive(Clone, Copy, Debug, PartialEq, Eq)]
pub struct ParseDecimalError;

#[verifier::external_type_specification]
#[verifier::external_body]
pub struct ExDecimalError(DecimalLibError);

/// Two decimals with equal parts are equal.
pub proof fn lemma_parts_eq(a: Dec, b: Dec)
    requires
        a.m() == b.m(),
        a.s() == b.s(),
    ensures
        a == b,
{
}

/// The parts of a decimal made from valid parts.
pub proof fn lemma_spec_new(m: int, s: nat)
    requires
        Dec::valid_parts(m, s),
    ensures
        Dec::spec_new(m, s).m() == m,
        Dec::spec_new(m, s).s() == s,
{
}

impl Dec {
    #[verifier::type_invariant]
    spec fn inv(self) -> bool {
        &&& -MAX_MANTISSA <= self.mantissa <= MAX_MANTISSA
        &&& self.scale <= MAX_SCALE
    }

    /// The mantissa.
    pub closed spec fn m(self) -> int {
        self.mantissa as int
    }

    /// The scale: the number of fractional digits.
    pub closed spec fn s(self) -> nat {
        self.scale as nat
    }

    /// The decimal with the given parts.
    pub closed spec fn spec_new(m: int, s: nat) -> Dec {
        Dec { mantissa: m as i128, scale: s as u32 }
    }

    /// The pair `(m, s)` describes a representable decimal.
    pub open spec fn valid_parts(m: int, s: nat) -> bool {
        -MAX_MANTISSA <= m <= MAX_MANTISSA && s <= MAX_SCALE
    }

    /// `num / 10^scale`.
    pub fn from_i128_with_scale(num: i128, scale: u32) -> (d: Dec)
        requires
            Self::valid_parts(num as int, scale as nat),
        ensures
            d.m() == num,
            d.s() == scale,
            d == Dec::spec_new(num as int, scale as nat),
    {
        Dec { mantissa: num, scale }
    }

    /// `num / 10^scale`.
    pub fn new(num: i64, scale: u32) -> (d: Dec)
        requires
            scale <= MAX_SCALE,
        ensures
            d.m() == num,
            d.s() == scale,
            d == Dec::spec_new(num as int, scale as nat),
    {
        Dec { mantissa: num as i128, scale }
    }

    /// `num / 10^scale`, `None` where the parts are out of range.
    pub fn try_from_i128_with_scale(num: i128, scale: u32) -> (d: Option<Dec>)
        ensures
            d is Some <==> Self::valid_parts(num as int, scale as nat),
            d matches Some(x) ==> x.m() == num && x.s() == scale,
    {
        if scale <= MAX_SCALE && -MAX_MANTISSA <= num && num <= MAX_MANTISSA {
            Some(Dec { mantissa: num, scale })
        } else {
            None
        }
    }

    pub fn zero() -> (d: Dec)
        ensures
            d.m() == 0,
            d.s() == 0,
    {
        Dec { mantissa: 0, scale: 0 }
    }

    pub fn one() -> (d: Dec)
        ensures
            d.m() == 1,
            d.s() == 0,
            d == Dec::spec_new(1, 0),
    {
        Dec { mantissa: 1, scale: 0 }
    }

    pub fn one_hundred() -> (d: Dec)
        ensures
            d.m() == 100,
            d.s() == 0,
    {
        Dec { mantissa: 100, scale: 0 }
    }

    pub fn mantissa(&self) -> (r: i128)
        ensures
            r == self.m(),
            -MAX_MANTISSA <= r <= MAX_MANTISSA,
    {
        proof {
            use_type_invariant(self);
        }
        self.mantissa
    }

    pub fn scale(&self) -> (r: u32)
        ensures
            r == self.s(),
            r <= MAX_SCALE,
    {
        proof {
            use_type_invariant(self);
        }
        self.scale
    }

    /// Every decimal value has parts in range.
    pub fn parts_in_range(&self) -> (b: bool)
        ensures
            b,
            Self::valid_parts(self.m(), self.s()),
    {
        proof {
            use_type_invariant(self);
        }
        true
    }

    pub fn is_zero(&self) -> (b: bool)
        ensures
            b == (self.m() == 0),
    {
        self.mantissa == 0
    }

    /// `self > 0`.
    pub fn is_positive(&self) -> (b: bool)
        ensures
            b == (self.m() > 0),
    {
        self.mantissa > 0
    }

    /// Numerical comparison.
    pub fn compare(&self, other: &Dec) -> (r: i8)
        ensures
            r == spec_compare(*self, *other),
    {
        ext_compare(self, other)
    }

    /// `self < other`, numerically.
    pub fn lt(&self, other: &Dec) -> (b: bool)
        ensures
            b == (spec_compare(*self, *other) < 0),
    {
        ext_compare(self, other) < 0
    }

    /// `self == other`, numerically.
    pub fn num_eq(&self, other: &Dec) -> (b: bool)
        ensures
            b == (spec_compare(*self, *other) == 0),
    {
        ext_compare(self, other) == 0
    }

    pub fn checked_mul(&self, other: &Dec) -> (r: Option<Dec>)
        ensures
            r == spec_checked_mul(*self, *other),
            abs(self.m() * other.m()) <= pow10(28) * pow10(self.s() + other.s()) ==> r is Some,
    {
        ext_checked_mul(self, other)
    }

    pub fn checked_div(&self, other: &Dec) -> (r: Option<Dec>)
        ensures
            r == spec_checked_div(*self, *other),
            other.m() == 0 ==> r is None,
            other.m() != 0 && abs(self.m()) * pow10(other.s()) <= pow10(28) * abs(other.m()) * pow10(self.s())
                ==> r is Some,
    {
        ext_checked_div(self, other)
    }

    pub fn checked_sub(&self, other: &Dec) -> (r: Option<Dec>)
        ensures
            r == spec_checked_sub(*self, *other),
            abs(self.m() * pow10(other.s()) - other.m() * pow10(self.s())) <= pow10(28) * pow10(self.s() + other.s())
                ==> r is Some,
    {
        ext_checked_sub(self, other)
    }

    pub fn checked_add(&self, other: &Dec) -> (r: Option<Dec>)
        ensures
            r == spec_checked_add(*self, *other),
            abs(self.m() * pow10(other.s()) + other.m() * pow10(self.s())) <= pow10(28) * pow10(self.s() + other.s())
                ==> r is Some,
    {
        ext_checked_add(self, other)
    }

    /// `1 / self`, which never overflows for a non-zero divisor.
    pub fn recip(&self) -> (r: Dec)
        requires
            self.m() != 0,
        ensures
            spec_checked_div(Dec::spec_new(1, 0), *self) == Some(r),
    {
        proof {
            use_type_invariant(self);
            lemma_pow10_mono(self.s(), 28);
            lemma_pow10_pos(self.s());
            assert(abs(1) * pow10(self.s()) <= pow10(28) * abs(self.m()) * pow10(0)) by (nonlinear_arith)
                requires
                    pow10(self.s()) <= pow10(28),
                    abs(self.m()) >= 1,
                    pow10(0) == 1,
                    pow10(self.s()) >= 1,
            ;
        }
        let one = Dec::one();
        let r = ext_checked_div(&one, self);
        r.unwrap()
    }

    /// `-self`: the sign of the mantissa flipped.
    pub fn neg(&self) -> (r: Dec)
        ensures
            r.m() == -self.m(),
            r.s() == self.s(),
    {
        proof {
            use_type_invariant(self);
        }
        Dec { mantissa: -self.mantissa, scale: self.scale }
    }

    /// Rounded to `dp` fractional digits, a midpoint away from zero.
    pub fn round_dp_midpoint_away_from_zero(&self, dp: u32) -> (r: Dec)
        ensures
            (r.m(), r.s()) == spec_round_dp(self.m(), self.s(), dp as nat),
    {
        ext_round_dp_away(self, dp)
    }

    /// Trailing zeros of the fraction stripped.
    pub fn normalize(&self) -> (r: Dec)
        ensures
            (r.m(), r.s()) == spec_normalize(self.m(), self.s()),
    {
        ext_normalize(self)
    }

    /// The decimal text of the value.
    pub fn to_string(&self) -> (r: String)
        ensures
            r@ == spec_to_string(self.m(), self.s()),
    {
        ext_to_string(self)
    }

    /// Parses a decimal text.
    pub fn from_str(s: &str) -> (r: Result<Dec, ParseDecimalError>)
        ensures
            r is Ok <==> spec_parse_decimal(s@) is Some,
            r matches Ok(d) ==> spec_parse_decimal(s@) == Some(d),
    {
        match ext_from_str(s) {
            Ok(d) => Ok(d),
            Err(_) => Err(ParseDecimalError),
        }
    }
}

/// Calls `Ord::cmp` of `rust_decimal::Decimal`, which compares the numerical
/// values: the contract claims the sign of `a.m * 10^b.s - b.m * 10^a.s`.
#[verifier::external_body]
fn ext_compare(a: &Dec, b: &Dec) -> (r: i8)
    ensures
        r == spec_compare(*a, *b),
{
    let x = rust_decimal::Decimal::from_i128_with_scale(a.mantissa, a.scale);
    let y = rust_decimal::Decimal::from_i128_with_scale(b.mantissa, b.scale);
    match x.cmp(&y) {
        core::cmp::Ordering::Less => -1,
        core::cmp::Ordering::Equal => 0,
        core::cmp::Ordering::Greater => 1,
    }
}

/// Calls `rust_decimal::Decimal::checked_mul`; the contract names its result
/// and claims it is `Some` where the exact product is at most 10^28 in
/// magnitude (the representable range reaches about 7.9 * 10^28).
#[verifier::external_body]
fn ext_checked_mul(a: &Dec, b: &Dec) -> (r: Option<Dec>)
    ensures
        r == spec_checked_mul(*a, *b),
        abs(a.m() * b.m()) <= pow10(28) * pow10(a.s() + b.s()) ==> r is Some,
{
    let x = rust_decimal::Decimal::from_i128_with_scale(a.mantissa, a.scale);
    let y = rust_decimal::Decimal::from_i128_with_scale(b.mantissa, b.scale);
    x.checked_mul(y).map(|z| Dec { mantissa: z.mantissa(), scale: z.scale() })
}

/// Calls `rust_decimal::Decimal::checked_div`; the contract names its result,
/// claims `None` for a zero divisor (as its documentation says) and `Some`
/// where the exact quotient is at most 10^28 in magnitude.
#[verifier::external_body]
fn ext_checked_div(a: &Dec, b: &Dec) -> (r: Option<Dec>)
    ensures
        r == spec_checked_div(*a, *b),
        b.m() == 0 ==> r is None,
        b.m() != 0 && abs(a.m()) * pow10(b.s()) <= pow10(28) * abs(b.m()) * pow10(a.s()) ==> r is Some,
{
    let x = rust_decimal::Decimal::from_i128_with_scale(a.mantissa, a.scale);
    let y = rust_decimal::Decimal::from_i128_with_scale(b.mantissa, b.scale);
    x.checked_div(y).map(|z| Dec { mantissa: z.mantissa(), scale: z.scale() })
}

/// Calls `rust_decimal::Decimal::checked_sub`; the contract names its result
/// and claims `Some` where the exact difference is at most 10^28 in
/// magnitude (an overflow needs more than 96 bits at scale 0).
#[verifier::external_body]
fn ext_checked_sub(a: &Dec, b: &Dec) -> (r: Option<Dec>)
    ensures
        r == spec_checked_sub(*a, *b),
        abs(a.m() * pow10(b.s()) - b.m() * pow10(a.s())) <= pow10(28) * pow10(a.s() + b.s()) ==> r is Some,
{
    let x = rust_decimal::Decimal::from_i128_with_scale(a.mantissa, a.scale);
    let y = rust_decimal::Decimal::from_i128_with_scale(b.mantissa, b.scale);
    x.checked_sub(y).map(|z| Dec { mantissa: z.mantissa(), scale: z.scale() })
}

/// Calls `rust_decimal::Decimal::checked_add`; the contract names its result
/// and claims `Some` where the exact sum is at most 10^28 in magnitude (an
/// overflow needs more than 96 bits at scale 0).
#[verifier::external_body]
fn ext_checked_add(a: &Dec, b: &Dec) -> (r: Option<Dec>)
    ensures
        r == spec_checked_add(*a, *b),
        abs(a.m() * pow10(b.s()) + b.m() * pow10(a.s())) <= pow10(28) * pow10(a.s() + b.s()) ==> r is Some,
{
    let x = rust_decimal::Decimal::from_i128_with_scale(a.mantissa, a.scale);
    let y = rust_decimal::Decimal::from_i128_with_scale(b.mantissa, b.scale);
    x.checked_add(y).map(|z| Dec { mantissa: z.mantissa(), scale: z.scale() })
}

/// Calls `rust_decimal::Decimal::round_dp_with_strategy` with the strategy
/// `MidpointAwayFromZero`: the quotient by `10^(s - dp)`, plus one in
/// magnitude where the remainder is at least half the divisor.
#[verifier::external_body]
fn ext_round_dp_away(a: &Dec, dp: u32) -> (r: Dec)
    ensures
        (r.m(), r.s()) == spec_round_dp(a.m(), a.s(), dp as nat),
{
    let x = rust_decimal::Decimal::from_i128_with_scale(a.mantissa, a.scale);
    let z = x.round_dp_with_strategy(dp, rust_decimal::RoundingStrategy::MidpointAwayFromZero);
    Dec { mantissa: z.mantissa(), scale: z.scale() }
}

/// Calls `rust_decimal::Decimal::normalize`, which strips trailing zeros of
/// the fraction and gives zero the scale 0.
#[verifier::external_body]
fn ext_normalize(a: &Dec) -> (r: Dec)
    ensures
        (r.m(), r.s()) == spec_normalize(a.m(), a.s()),
{
    let x = rust_decimal::Decimal::from_i128_with_scale(a.mantissa, a.scale);
    let z = x.normalize();
    Dec { mantissa: z.mantissa(), scale: z.scale() }
}

/// Calls `ToString::to_string` through the `Display` of
/// `rust_decimal::Decimal`: sign, whole part and exactly `scale` fractional digits.
#[verifier::external_body]
fn ext_to_string(a: &Dec) -> (r: String)
    ensures
        r@ == spec_to_string(a.m(), a.s()),
{
    let x = rust_decimal::Decimal::from_i128_with_scale(a.mantissa, a.scale);
    x.to_string()
}

/// Calls `FromStr::from_str` of `rust_decimal::Decimal`; the contract names
/// its result.
#[verifier::external_body]
fn ext_from_str(s: &str) -> (r: Result<Dec, DecimalLibError>)
    ensures
        r is Ok <==> spec_parse_decimal(s@) is Some,
        r matches Ok(d) ==> spec_parse_decimal(s@) == Some(d),
{
    match <rust_decimal::Decimal as core::str::FromStr>::from_str(s) {
        Ok(z) => Ok(Dec { mantissa: z.mantissa(), scale: z.scale() }),
        Err(e) => Err(e),
    }
}

} // verus!
