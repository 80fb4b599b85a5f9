//! Numbers of the template language: exact rationals `num / den` with
//! `den > 0`, both held in `i64`. Arithmetic is exact; a result whose
//! numerator or denominator leaves `i64` is an error, never a rounding.
use vstd::prelude::*;
use crate::text::push_char;

verus! {

/// Why a numeric operation has no result.
#[derive(PartialEq, Eq, Structural, Debug, Clone, Copy)]
pub enum NumError {
    /// A numerator or denominator does not fit in 64 bits.
    OutOfRange,
    /// A division, remainder or negative power with a zero divisor.
    DivisionByZero,
    /// The exact result is not a rational (a fractional power, an inexact logarithm).
    NotRepresentable,
}

/// A number: the rational `num / den`.
#[derive(Debug, Clone, Copy)]
pub struct NNumber {
    pub num: i64,
    pub den: i64,
}

/// A rational as a pair of integers, denominator first positive.
pub type Ratio = (int, int);

/// Whether `x` fits in 64 bits with its negation: `i64::MIN` is left out so
/// that every magnitude fits too.
pub open spec fn fits(x: int) -> bool {
    -i64::MAX <= x <= i64::MAX
}

/// The pair, when both parts fit in 64 bits.
pub open spec fn checked(n: int, d: int) -> Result<Ratio, NumError> {
    if fits(n) && fits(d) {
        Ok((n, d))
    } else {
        Err(NumError::OutOfRange)
    }
}

pub open spec fn abs(x: int) -> int {
    if x < 0 { -x } else { x }
}

/// `m` with the sign of `x`.
pub open spec fn with_sign(x: int, m: int) -> int {
    if x < 0 { -m } else { m }
}

pub open spec fn pow(x: int, e: nat) -> int
    decreases e,
{
    if e == 0 { 1 } else { x * pow(x, (e - 1) as nat) }
}

pub open spec fn spec_add(a: Ratio, b: Ratio) -> Result<Ratio, NumError> {
    checked(a.0 * b.1 + b.0 * a.1, a.1 * b.1)
}

pub open spec fn spec_sub(a: Ratio, b: Ratio) -> Result<Ratio, NumError> {
    checked(a.0 * b.1 - b.0 * a.1, a.1 * b.1)
}

pub open spec fn spec_mul(a: Ratio, b: Ratio) -> Result<Ratio, NumError> {
    checked(a.0 * b.0, a.1 * b.1)
}

pub open spec fn spec_div(a: Ratio, b: Ratio) -> Result<Ratio, NumError> {
    if b.0 == 0 {
        Err(NumError::DivisionByZero)
    } else {
        checked(with_sign(b.0, a.0 * b.1), a.1 * abs(b.0))
    }
}

/// The remainder of truncating division: `a - b * trunc(a / b)`, with the sign of `a`.
pub open spec fn spec_rem(a: Ratio, b: Ratio) -> Result<Ratio, NumError> {
    let x = a.0 * b.1;
    let y = abs(b.0 * a.1);
    if b.0 == 0 {
        Err(NumError::DivisionByZero)
    } else {
        checked(with_sign(x, abs(x) % y), a.1 * b.1)
    }
}

/// Whether the rational is a whole number.
pub open spec fn is_whole(a: Ratio) -> bool {
    abs(a.0) % a.1 == 0
}

/// `a` raised to the whole power `b`.
pub open spec fn spec_pow(a: Ratio, b: Ratio) -> Result<Ratio, NumError> {
    let e = with_sign(b.0, abs(b.0) / b.1);
    if !is_whole(b) {
        Err(NumError::NotRepresentable)
    } else if e >= 0 {
        checked(pow(a.0, e as nat), pow(a.1, e as nat))
    } else if a.0 == 0 {
        Err(NumError::DivisionByZero)
    } else {
        checked(pow(with_sign(a.0, a.1), (-e) as nat), pow(abs(a.0), (-e) as nat))
    }
}

/// Equality of the rationals.
pub open spec fn same_value(a: Ratio, b: Ratio) -> bool {
    a.0 * b.1 == b.0 * a.1
}

pub open spec fn less_than(a: Ratio, b: Ratio) -> bool {
    a.0 * b.1 < b.0 * a.1
}

/// Logarithms are sought among the powers below this one.
pub const LOG_LIMIT: u64 = 64;

/// The value truncated toward zero.
pub open spec fn trunc(a: Ratio) -> int {
    with_sign(a.0, abs(a.0) / a.1)
}

/// `n / d` rounded to the nearest whole number, halves away from zero.
pub open spec fn round_half_away(n: int, d: int) -> int {
    let q = abs(n) / d;
    let r = abs(n) % d;
    with_sign(n, if 2 * r >= d { q + 1 } else { q })
}

/// `a` rounded to `p` decimal places.
pub open spec fn spec_round(a: Ratio, p: int) -> Result<Ratio, NumError> {
    if -18 <= p <= 18 {
        if p >= 0 {
            let f = pow(10, p as nat);
            checked(round_half_away(a.0 * f, a.1), f)
        } else {
            let f = pow(10, (-p) as nat);
            checked(round_half_away(a.0, a.1 * f) * f, 1)
        }
    } else {
        Err(NumError::OutOfRange)
    }
}

/// The decimal digit character for `d < 10`.
pub open spec fn digit_char(d: int) -> char {
    ((d + 48) as u8) as char
}

/// The decimal text of a natural number.
pub open spec fn nat_text(m: nat) -> Seq<char>
    decreases m,
{
    if m < 10 {
        seq![digit_char(m as int)]
    } else {
        nat_text(m / 10) + seq![digit_char((m % 10) as int)]
    }
}

/// The decimal text of an integer.
pub open spec fn int_text(x: int) -> Seq<char> {
    if x < 0 { seq!['-'] + nat_text((-x) as nat) } else { nat_text(x as nat) }
}

/// The first `k` digits of `r / d` (with `r < d`) after the decimal point.
pub open spec fn fraction_digits(r: nat, d: nat, k: nat) -> Seq<char>
    decreases k,
{
    if k == 0 || d == 0 {
        Seq::empty()
    } else {
        seq![digit_char(((r * 10) / d) as int)] + fraction_digits((r * 10) % d, d, (k - 1) as nat)
    }
}

pub open spec fn trim_zeros(s: Seq<char>) -> Seq<char>
    decreases s.len(),
{
    if s.len() > 0 && s.last() == '0' { trim_zeros(s.drop_last()) } else { s }
}

/// The number of digits shown after the decimal point, at most.
pub const FRACTION_DIGITS: u64 = 16;

/// The canonical decimal text of `n / d` (`d > 0`): the whole part, then up to
/// `FRACTION_DIGITS` digits of the fraction, truncated, without trailing zeros.
pub open spec fn decimal_text(n: int, d: int) -> Seq<char> {
    let m = abs(n);
    let whole = m / d;
    let frac = trim_zeros(fraction_digits((m % d) as nat, d as nat, FRACTION_DIGITS as nat));
    let sign_part = if n < 0 && (whole != 0 || frac.len() > 0) { seq!['-'] } else { Seq::empty() };
    sign_part + nat_text(whole as nat) + if frac.len() > 0 { seq!['.'] + frac } else { Seq::empty() }
}

pub open spec fn is_digit(c: char) -> bool {
    '0' <= c <= '9'
}

/// Reading decimal text left to right: the digits seen as one integer, the
/// digits after the point, the points seen, the digits seen; `None` at any
/// other character.
pub open spec fn decimal_parts(s: Seq<char>) -> Option<(int, int, int, int)>
    decreases s.len(),
{
    if s.len() == 0 {
        Some((0, 0, 0, 0))
    } else {
        match decimal_parts(s.drop_last()) {
            None => None,
            Some((m, scale, dots, digits)) => {
                let c = s.last();
                if c == '.' {
                    Some((m, scale, dots + 1, digits))
                } else if is_digit(c) {
                    Some((m * 10 + (c as int - 48), if dots > 0 { scale + 1 } else { scale }, dots, digits + 1))
                } else {
                    None
                }
            },
        }
    }
}

/// The value of decimal text: an optional sign, digits with at most one point
/// among them, at least one digit.
pub open spec fn decimal_value(s: Seq<char>) -> Option<Ratio> {
    let signed = s.len() > 0 && (s[0] == '+' || s[0] == '-');
    let body = if signed { s.drop_first() } else { s };
    match decimal_parts(body) {
        Some((m, scale, dots, digits)) => if dots <= 1 && digits >= 1 {
            Some((if signed && s[0] == '-' { -m } else { m }, pow(10, scale as nat)))
        } else {
            None
        },
        None => None,
    }
}

/// The smallest `k` in `k..LOG_LIMIT` with `b` to the power `k` equal to
/// `a`, searching only powers whose numerator and denominator fit in 64 bits.
pub open spec fn log_search(a: Ratio, b: Ratio, k: nat) -> Option<nat>
    decreases LOG_LIMIT - k,
{
    if k >= LOG_LIMIT as nat || !fits(pow(b.0, k)) || !fits(pow(b.1, k)) {
        None
    } else if same_value((pow(b.0, k), pow(b.1, k)), a) {
        Some(k)
    } else {
        log_search(a, b, k + 1)
    }
}

/// The logarithm of `a` to base `b`, where it is a whole number that the search finds.
pub open spec fn spec_log(a: Ratio, b: Ratio) -> Result<Ratio, NumError> {
    match log_search(a, b, 0) {
        Some(k) => Ok((k as int, 1)),
        None => Err(NumError::NotRepresentable),
    }
}

/// `a` rounded to `places` decimal places (a whole number).
pub open spec fn spec_round_places(a: Ratio, places: Ratio) -> Result<Ratio, NumError> {
    if !is_whole(places) {
        Err(NumError::NotRepresentable)
    } else {
        spec_round(a, trunc(places))
    }
}

pub open spec fn without_underscores(s: Seq<char>) -> Seq<char>
    decreases s.len(),
{
    if s.len() == 0 {
        s
    } else if s.last() == '_' {
        without_underscores(s.drop_last())
    } else {
        without_underscores(s.drop_last()).push(s.last())
    }
}

impl View for NNumber {
    type V = Ratio;

    open spec fn view(&self) -> Ratio {
        (self.num as int, self.den as int)
    }
}

pub open spec fn ratio_result(r: Result<NNumber, NumError>) -> Result<Ratio, NumError> {
    match r {
        Ok(n) => Ok(n@),
        Err(e) => Err(e),
    }
}

proof fn lemma_wide_product(x: int, y: int)
    requires
        fits(x),
        fits(y),
    ensures
        -0x4000_0000_0000_0000_0000_0000_0000_0000 <= x * y <= 0x4000_0000_0000_0000_0000_0000_0000_0000,
        y > 0 ==> -0x4000_0000_0000_0000_0000_0000_0000_0000 < x * y < 0x4000_0000_0000_0000_0000_0000_0000_0000,
{
    assert(-0x4000_0000_0000_0000_0000_0000_0000_0000 <= x * y <= 0x4000_0000_0000_0000_0000_0000_0000_0000) by (nonlinear_arith)
        requires -0x8000_0000_0000_0000 <= x <= 0x7fff_ffff_ffff_ffff, -0x8000_0000_0000_0000 <= y <= 0x7fff_ffff_ffff_ffff;
    if y > 0 {
        assert(-0x4000_0000_0000_0000_0000_0000_0000_0000 < x * y < 0x4000_0000_0000_0000_0000_0000_0000_0000) by (nonlinear_arith)
            requires -0x8000_0000_0000_0000 <= x <= 0x7fff_ffff_ffff_ffff, 0 < y <= 0x7fff_ffff_ffff_ffff;
    }
}

proof fn lemma_pow_positive(x: int, e: nat)
    requires
        x > 0,
    ensures
        pow(x, e) > 0,
    decreases e,
{
    if e > 0 {
        lemma_pow_positive(x, (e - 1) as nat);
        assert(x * pow(x, (e - 1) as nat) > 0) by (nonlinear_arith)
            requires x > 0, pow(x, (e - 1) as nat) > 0;
    }
}

/// Powers of a non-zero integer do not shrink in magnitude.
proof fn lemma_pow_grows(x: int, k: nat, e: nat)
    requires
        x != 0,
        k <= e,
    ensures
        abs(pow(x, k)) <= abs(pow(x, e)),
    decreases e - k,
{
    if k < e {
        lemma_pow_grows(x, k, (e - 1) as nat);
        let p = pow(x, (e - 1) as nat);
        assert(abs(x * p) >= abs(p)) by (nonlinear_arith)
            requires x != 0;
    }
}

impl NNumber {
    pub open spec fn wf(&self) -> bool {
        self.den > 0 && self.num > i64::MIN
    }

    /// The whole number `n`.
    pub fn from_int(n: i64) -> (r: NNumber)
        requires
            fits(n as int),
        ensures
            r@ == (n as int, 1int),
            r.wf(),
    {
        NNumber { num: n, den: 1 }
    }

    fn from_wide(n: i128, d: i128) -> (r: Result<NNumber, NumError>)
        ensures
            ratio_result(r) == checked(n as int, d as int),
    {
        if n < -(i64::MAX as i128) || n > i64::MAX as i128 || d < -(i64::MAX as i128) || d > i64::MAX as i128 {
            Err(NumError::OutOfRange)
        } else {
            Ok(NNumber { num: n as i64, den: d as i64 })
        }
    }

    pub fn add(&self, o: &NNumber) -> (r: Result<NNumber, NumError>)
        requires
            self.wf(),
            o.wf(),
        ensures
            ratio_result(r) == spec_add(self@, o@),
            r is Ok ==> r->Ok_0.wf(),
    {
        let (a, b, c, d) = (self.num as i128, self.den as i128, o.num as i128, o.den as i128);
        proof {
            lemma_wide_product(a as int, d as int);
            lemma_wide_product(c as int, b as int);
        }
        assert(0 < b * d < 0x4000_0000_0000_0000_0000_0000_0000_0000) by (nonlinear_arith)
            requires 0 < b < 0x8000_0000_0000_0000, 0 < d < 0x8000_0000_0000_0000;
        Self::from_wide(a * d + c * b, b * d)
    }

    pub fn sub(&self, o: &NNumber) -> (r: Result<NNumber, NumError>)
        requires
            self.wf(),
            o.wf(),
        ensures
            ratio_result(r) == spec_sub(self@, o@),
            r is Ok ==> r->Ok_0.wf(),
    {
        let (a, b, c, d) = (self.num as i128, self.den as i128, o.num as i128, o.den as i128);
        proof {
            lemma_wide_product(a as int, d as int);
            lemma_wide_product(c as int, b as int);
        }
        assert(0 < b * d < 0x4000_0000_0000_0000_0000_0000_0000_0000) by (nonlinear_arith)
            requires 0 < b < 0x8000_0000_0000_0000, 0 < d < 0x8000_0000_0000_0000;
        Self::from_wide(a * d - c * b, b * d)
    }

    pub fn mul(&self, o: &NNumber) -> (r: Result<NNumber, NumError>)
        requires
            self.wf(),
            o.wf(),
        ensures
            ratio_result(r) == spec_mul(self@, o@),
            r is Ok ==> r->Ok_0.wf(),
    {
        let (a, b, c, d) = (self.num as i128, self.den as i128, o.num as i128, o.den as i128);
        assert(-0x4000_0000_0000_0000_0000_0000_0000_0000 <= a * c <= 0x4000_0000_0000_0000_0000_0000_0000_0000) by (nonlinear_arith)
            requires -0x8000_0000_0000_0000 <= a < 0x8000_0000_0000_0000, -0x8000_0000_0000_0000 <= c < 0x8000_0000_0000_0000;
        assert(0 < b * d < 0x4000_0000_0000_0000_0000_0000_0000_0000) by (nonlinear_arith)
            requires 0 < b < 0x8000_0000_0000_0000, 0 < d < 0x8000_0000_0000_0000;
        Self::from_wide(a * c, b * d)
    }

    pub fn div(&self, o: &NNumber) -> (r: Result<NNumber, NumError>)
        requires
            self.wf(),
            o.wf(),
        ensures
            ratio_result(r) == spec_div(self@, o@),
            r is Ok ==> r->Ok_0.wf(),
    {
        if o.num == 0 {
            return Err(NumError::DivisionByZero);
        }
        let (a, b, c, d) = (self.num as i128, self.den as i128, o.num as i128, o.den as i128);
        let m = if c < 0 { -c } else { c };
        proof {
            lemma_wide_product(a as int, d as int);
        }
        assert(0 < b * m <= 0x4000_0000_0000_0000_0000_0000_0000_0000) by (nonlinear_arith)
            requires 0 < b < 0x8000_0000_0000_0000, 0 < m <= 0x8000_0000_0000_0000;
        let n = a * d;
        let n = if c < 0 { -n } else { n };
        Self::from_wide(n, b * m)
    }

    pub fn rem(&self, o: &NNumber) -> (r: Result<NNumber, NumError>)
        requires
            self.wf(),
            o.wf(),
        ensures
            ratio_result(r) == spec_rem(self@, o@),
            r is Ok ==> r->Ok_0.wf(),
    {
        if o.num == 0 {
            return Err(NumError::DivisionByZero);
        }
        let (a, b, c, d) = (self.num as i128, self.den as i128, o.num as i128, o.den as i128);
        assert(-0x4000_0000_0000_0000_0000_0000_0000_0000 <= a * d <= 0x4000_0000_0000_0000_0000_0000_0000_0000) by (nonlinear_arith)
            requires -0x8000_0000_0000_0000 <= a < 0x8000_0000_0000_0000, 0 < d < 0x8000_0000_0000_0000;
        assert(-0x4000_0000_0000_0000_0000_0000_0000_0000 <= c * b <= 0x4000_0000_0000_0000_0000_0000_0000_0000 && c * b != 0) by (nonlinear_arith)
            requires -0x8000_0000_0000_0000 <= c < 0x8000_0000_0000_0000, c != 0, 0 < b < 0x8000_0000_0000_0000;
        assert(0 < b * d < 0x4000_0000_0000_0000_0000_0000_0000_0000) by (nonlinear_arith)
            requires 0 < b < 0x8000_0000_0000_0000, 0 < d < 0x8000_0000_0000_0000;
        let x = a * d;
        let cb = c * b;
        let y = if cb < 0 { -cb } else { cb };
        let n = if x < 0 { -((-x) % y) } else { x % y };
        Self::from_wide(n, b * d)
    }

    /// `self` raised to the whole power `o`.
    pub fn pow(&self, o: &NNumber) -> (r: Result<NNumber, NumError>)
        requires
            self.wf(),
            o.wf(),
        ensures
            ratio_result(r) == spec_pow(self@, o@),
            r is Ok ==> r->Ok_0.wf(),
    {
        let m = if o.num < 0 { -(o.num as i128) } else { o.num as i128 };
        if m % (o.den as i128) != 0 {
            return Err(NumError::NotRepresentable);
        }
        let q = m / (o.den as i128);
        assert(0 <= q <= m) by (nonlinear_arith)
            requires q == m / (o.den as i128), m >= 0, o.den > 0;
        let e: i128 = if o.num < 0 { -q } else { q };
        let (base_n, base_d, count) = if e >= 0 {
            (self.num as i128, self.den as i128, e)
        } else if self.num == 0 {
            return Err(NumError::DivisionByZero);
        } else if self.num < 0 {
            (-(self.den as i128), -(self.num as i128), -e)
        } else {
            (self.den as i128, self.num as i128, -e)
        };
        assert(is_whole(o@));
        assert(e == with_sign(o.num as int, abs(o.num as int) / (o.den as int)));
        assert(spec_pow(self@, o@) == checked(pow(base_n as int, count as nat), pow(base_d as int, count as nat)));
        let mut acc_n: i128 = 1;
        let mut acc_d: i128 = 1;
        let mut i: i128 = 0;
        proof {
            lemma_pow_positive(base_d as int, 0);
        }
        while i < count
            invariant
                0 <= i <= count,
                base_d > 0,
                fits(base_n as int),
                fits(base_d as int),
                acc_n == pow(base_n as int, i as nat),
                acc_d == pow(base_d as int, i as nat),
                fits(acc_n as int),
                fits(acc_d as int),
                acc_d > 0,
                spec_pow(self@, o@) == checked(pow(base_n as int, count as nat), pow(base_d as int, count as nat)),
            decreases count - i,
        {
            assert(-0x4000_0000_0000_0000_0000_0000_0000_0000 <= base_n * acc_n <= 0x4000_0000_0000_0000_0000_0000_0000_0000) by (nonlinear_arith)
                requires fits(acc_n as int), fits(base_n as int);
            assert(-0x4000_0000_0000_0000_0000_0000_0000_0000 <= base_d * acc_d <= 0x4000_0000_0000_0000_0000_0000_0000_0000) by (nonlinear_arith)
                requires fits(acc_d as int), fits(base_d as int);
            let next_n = base_n * acc_n;
            let next_d = base_d * acc_d;
            if next_n < -(i64::MAX as i128) || next_n > i64::MAX as i128 || next_d > i64::MAX as i128 {
                proof {
                    assert(pow(base_n as int, (i + 1) as nat) == base_n * pow(base_n as int, i as nat));
                    assert(pow(base_d as int, (i + 1) as nat) == base_d * pow(base_d as int, i as nat));
                    assert(pow(base_n as int, (i + 1) as nat) == next_n);
                    assert(pow(base_d as int, (i + 1) as nat) == next_d);
                    if base_n != 0 {
                        lemma_pow_grows(base_n as int, (i + 1) as nat, count as nat);
                    } else {
                        assert(next_n == 0);
                    }
                    lemma_pow_grows(base_d as int, (i + 1) as nat, count as nat);
                    lemma_pow_positive(base_d as int, (i + 1) as nat);
                    lemma_pow_positive(base_d as int, count as nat);
                    assert(!fits(pow(base_n as int, count as nat)) || !fits(pow(base_d as int, count as nat)));
                }
                return Err(NumError::OutOfRange);
            }
            assert(pow(base_n as int, (i + 1) as nat) == base_n * pow(base_n as int, i as nat));
            assert(pow(base_d as int, (i + 1) as nat) == base_d * pow(base_d as int, i as nat));
            assert(next_d > 0) by (nonlinear_arith)
                requires next_d == base_d * acc_d, base_d > 0, acc_d > 0;
            acc_n = next_n;
            acc_d = next_d;
            i = i + 1;
        }
        proof {
            lemma_pow_positive(base_d as int, count as nat);
        }
        Ok(NNumber { num: acc_n as i64, den: acc_d as i64 })
    }

    pub fn equals(&self, o: &NNumber) -> (r: bool)
        requires
            self.wf(),
            o.wf(),
        ensures
            r == same_value(self@, o@),
    {
        assert(-0x4000_0000_0000_0000_0000_0000_0000_0000 <= (self.num as i128) * (o.den as i128) <= 0x4000_0000_0000_0000_0000_0000_0000_0000) by (nonlinear_arith)
            requires fits(self.num as int), fits(o.den as int);
        assert(-0x4000_0000_0000_0000_0000_0000_0000_0000 <= (o.num as i128) * (self.den as i128) <= 0x4000_0000_0000_0000_0000_0000_0000_0000) by (nonlinear_arith)
            requires fits(o.num as int), fits(self.den as int);
        (self.num as i128) * (o.den as i128) == (o.num as i128) * (self.den as i128)
    }

    pub fn less(&self, o: &NNumber) -> (r: bool)
        requires
            self.wf(),
            o.wf(),
        ensures
            r == less_than(self@, o@),
    {
        assert(-0x4000_0000_0000_0000_0000_0000_0000_0000 <= (self.num as i128) * (o.den as i128) <= 0x4000_0000_0000_0000_0000_0000_0000_0000) by (nonlinear_arith)
            requires fits(self.num as int), fits(o.den as int);
        assert(-0x4000_0000_0000_0000_0000_0000_0000_0000 <= (o.num as i128) * (self.den as i128) <= 0x4000_0000_0000_0000_0000_0000_0000_0000) by (nonlinear_arith)
            requires fits(o.num as int), fits(self.den as int);
        (self.num as i128) * (o.den as i128) < (o.num as i128) * (self.den as i128)
    }

    /// The value truncated toward zero.
    pub fn trunc(&self) -> (r: i128)
        requires
            self.wf(),
        ensures
            r == trunc(self@),
    {
        let m = if self.num < 0 { -(self.num as i128) } else { self.num as i128 };
        let q = m / (self.den as i128);
        assert(0 <= q <= m) by (nonlinear_arith)
            requires q == m / (self.den as i128), m >= 0, self.den > 0;
        if self.num < 0 { -q } else { q }
    }
}

/// Appends the decimal text of `m`.
fn push_nat(s: &mut String, m: u64)
    ensures
        final(s)@ == old(s)@ + nat_text(m as nat),
    decreases m,
{
    if m < 10 {
        push_char(s, ((m + 48) as u8) as char);
    } else {
        push_nat(s, m / 10);
        push_char(s, (((m % 10) + 48) as u8) as char);
        proof {
            assert(old(s)@ + nat_text((m / 10) as nat) + seq![digit_char((m % 10) as int)] =~= old(s)@ + nat_text(m as nat));
        }
    }
}

/// The text of a whole number.
pub fn int_to_text(x: i128) -> (r: String)
    requires
        -0xffff_ffff_ffff_ffff <= x <= 0xffff_ffff_ffff_ffff,
    ensures
        r@ == int_text(x as int),
{
    let mut s = String::new();
    if x < 0 {
        push_char(&mut s, '-');
        push_nat(&mut s, (-x) as u64);
    } else {
        push_nat(&mut s, x as u64);
    }
    s
}

proof fn lemma_pow10_18()
    ensures
        pow(10, 18) == 1_000_000_000_000_000_000,
{
    reveal_with_fuel(pow, 19);
}

/// `10` to the power `k`.
fn pow10(k: u32) -> (r: i128)
    requires
        k <= 18,
    ensures
        r == pow(10, k as nat),
        0 < r <= 1_000_000_000_000_000_000,
{
    let mut r: i128 = 1;
    let mut i: u32 = 0;
    proof {
        lemma_pow10_18();
    }
    while i < k
        invariant
            i <= k <= 18,
            r == pow(10, i as nat),
            0 < r <= pow(10, i as nat),
            r <= 1_000_000_000_000_000_000,
            i <= 18 ==> r * pow(10, (18 - i) as nat) == 1_000_000_000_000_000_000,
        decreases k - i,
    {
        assert(pow(10, (i + 1) as nat) == 10 * pow(10, i as nat));
        assert(pow(10, (18 - i) as nat) == 10 * pow(10, (17 - i) as nat));
        proof {
            lemma_pow_positive(10, (17 - i) as nat);
        }
        assert(r * 10 <= 1_000_000_000_000_000_000) by (nonlinear_arith)
            requires r * (10 * pow(10, (17 - i) as nat)) == 1_000_000_000_000_000_000, pow(10, (17 - i) as nat) >= 1, r > 0;
        assert((r * 10) * pow(10, (17 - i) as nat) == r * (10 * pow(10, (17 - i) as nat))) by (nonlinear_arith);
        r = r * 10;
        i = i + 1;
    }
    r
}

/// `n / d` rounded to the nearest whole number, halves away from zero.
fn round_half_away_exec(n: i128, d: i128) -> (r: i128)
    requires
        0 < d <= 0x2000_0000_0000_0000_0000_0000_0000_0000,
        -0x4000_0000_0000_0000_0000_0000_0000_0000 <= n <= 0x4000_0000_0000_0000_0000_0000_0000_0000,
    ensures
        r == round_half_away(n as int, d as int),
        abs(r as int) <= abs(n as int) / (d as int) + 1,
{
    let m = if n < 0 { -n } else { n };
    let q = m / d;
    let rem = m % d;
    assert(0 <= q <= m) by (nonlinear_arith)
        requires q == m / d, m >= 0, d > 0;
    let k = if 2 * rem >= d { q + 1 } else { q };
    if n < 0 { -k } else { k }
}

impl NNumber {
    /// The canonical decimal text of the number.
    pub fn to_text(&self) -> (r: String)
        requires
            self.wf(),
        ensures
            r@ == decimal_text(self.num as int, self.den as int),
    {
        let m: u64 = if self.num < 0 { (-(self.num as i128)) as u64 } else { self.num as u64 };
        let d: u64 = self.den as u64;
        let whole = m / d;
        let mut rem: u64 = m % d;
        let mut frac: Vec<char> = Vec::new();
        let mut k: u64 = 0;
        let ghost full = fraction_digits(rem as nat, d as nat, FRACTION_DIGITS as nat);
        while k < FRACTION_DIGITS
            invariant
                d > 0,
                rem < d,
                k <= FRACTION_DIGITS,
                full == frac@ + fraction_digits(rem as nat, d as nat, (FRACTION_DIGITS - k) as nat),
            decreases FRACTION_DIGITS - k,
        {
            let wide = (rem as u128) * 10;
            let digit = wide / (d as u128);
            assert(digit < 10) by (nonlinear_arith)
                requires digit == wide / (d as u128), wide == rem * 10, rem < d, d > 0;
            let ghost before = frac@;
            frac.push(((digit as u8) + 48) as char);
            assert(fraction_digits(rem as nat, d as nat, (FRACTION_DIGITS - k) as nat)
                == seq![digit_char(((rem as nat * 10) / (d as nat)) as int)] + fraction_digits(((rem as nat * 10) % (d as nat)) as nat, d as nat, (FRACTION_DIGITS - k - 1) as nat));
            rem = (wide % (d as u128)) as u64;
            k = k + 1;
            assert(frac@ + fraction_digits(rem as nat, d as nat, (FRACTION_DIGITS - k) as nat) =~= before + (seq![digit_char(digit as int)] + fraction_digits(rem as nat, d as nat, (FRACTION_DIGITS - k) as nat)));
        }
        assert(frac@ =~= full);
        while frac.len() > 0 && frac[frac.len() - 1] == '0'
            invariant
                trim_zeros(frac@) == trim_zeros(full),
            decreases frac.len(),
        {
            frac.pop();
        }
        let mut s = String::new();
        if self.num < 0 && (whole != 0 || frac.len() > 0) {
            push_char(&mut s, '-');
        }
        let ghost sign_part = s@;
        push_nat(&mut s, whole);
        if frac.len() > 0 {
            push_char(&mut s, '.');
            let mut i: usize = 0;
            let ghost head = s@;
            while i < frac.len()
                invariant
                    i <= frac@.len(),
                    s@ == head + frac@.subrange(0, i as int),
                decreases frac.len() - i,
            {
                push_char(&mut s, frac[i]);
                assert(frac@.subrange(0, i + 1) == frac@.subrange(0, i as int).push(frac@[i as int]));
                i = i + 1;
            }
            assert(frac@.subrange(0, frac@.len() as int) == frac@);
            assert(s@ =~= sign_part + nat_text(whole as nat) + (seq!['.'] + frac@));
        } else {
            assert(s@ =~= sign_part + nat_text(whole as nat) + Seq::<char>::empty());
        }
        assert(frac@ == trim_zeros(full));
        s
    }
}

proof fn lemma_parts_stay_none(s: Seq<char>, i: int)
    requires
        0 <= i <= s.len(),
        decimal_parts(s.subrange(0, i)) is None,
    ensures
        decimal_parts(s) is None,
    decreases s.len() - i,
{
    if i < s.len() {
        assert(s.subrange(0, i + 1).drop_last() =~= s.subrange(0, i));
        lemma_parts_stay_none(s, i + 1);
    } else {
        assert(s.subrange(0, i) =~= s);
    }
}

/// The number that decimal text spells, if it spells one: `None` when it is
/// not decimal text, `Some(Err(OutOfRange))` when its value does not fit.
pub fn parse_decimal(s: &Vec<char>) -> (r: Option<Result<NNumber, NumError>>)
    ensures
        decimal_value(s@) is None <==> r is None,
        decimal_value(s@) matches Some(v) ==> ratio_result(r->0) == checked(v.0, v.1),
        r matches Some(Ok(n)) ==> n.wf(),
{
    let signed = s.len() > 0 && (s[0] == '+' || s[0] == '-');
    let negative = signed && s[0] == '-';
    let start: usize = if signed { 1 } else { 0 };
    let ghost body = if signed { s@.drop_first() } else { s@ };
    assert(body =~= s@.subrange(start as int, s@.len() as int));
    let mut i: usize = start;
    let mut m: i128 = 0;
    let mut big = false;
    let mut scale: u64 = 0;
    let mut dots: u64 = 0;
    let mut digits: u64 = 0;
    let ghost mut gm: int = 0;
    assert(body.subrange(0, 0) =~= Seq::<char>::empty());
    while i < s.len()
        invariant
            start <= i <= s@.len(),
            body == s@.subrange(start as int, s@.len() as int),
            body == (if signed { s@.drop_first() } else { s@ }),
            signed == (s@.len() > 0 && (s@[0] == '+' || s@[0] == '-')),
            negative == (signed && s@[0] == '-'),
            start == (if signed { 1int } else { 0int }),
            decimal_parts(body.subrange(0, i - start)) == Some((gm, scale as int, dots as int, digits as int)),
            gm >= 0,
            !big ==> m == gm,
            big ==> gm > i64::MAX,
            0 <= m <= i64::MAX,
            scale <= i - start,
            dots <= i - start,
            digits <= i - start,
        decreases s.len() - i,
    {
        let c = s[i];
        assert(body.subrange(0, i + 1 - start).drop_last() =~= body.subrange(0, i - start));
        assert(body.subrange(0, i + 1 - start).last() == c);
        if c == '.' {
            dots = dots + 1;
        } else if '0' <= c && c <= '9' {
            let d = (c as u32 - 48) as i128;
            proof {
                gm = gm * 10 + (c as int - 48);
            }
            if !big {
                let next = m * 10 + d;
                if next > i64::MAX as i128 {
                    big = true;
                } else {
                    m = next;
                }
            }
            if dots > 0 {
                scale = scale + 1;
            }
            digits = digits + 1;
        } else {
            assert(decimal_parts(body.subrange(0, i + 1 - start)) is None);
            proof {
                lemma_parts_stay_none(body, i + 1 - start);
                assert(body == (if signed { s@.drop_first() } else { s@ }));
                assert(decimal_value(s@) is None);
            }
            return None;
        }
        i = i + 1;
    }
    assert(body.subrange(0, i - start) =~= body);
    if dots > 1 || digits == 0 {
        return None;
    }
    if big || scale > 18 {
        proof {
            if !big {
                lemma_pow_grows(10, 19, scale as nat);
                reveal_with_fuel(pow, 20);
                lemma_pow_positive(10, scale as nat);
            }
        }
        return Some(Err(NumError::OutOfRange));
    }
    let den = pow10(scale as u32);
    let num = if negative { -m } else { m };
    Some(Ok(NNumber { num: num as i64, den: den as i64 }))
}

impl NNumber {
    /// Truth values as numbers: one and zero.
    pub fn from_bool(b: bool) -> (r: NNumber)
        ensures
            r@ == (if b { 1int } else { 0int }, 1int),
            r.wf(),
    {
        NNumber { num: if b { 1 } else { 0 }, den: 1 }
    }

    /// The number rounded to `places` decimal places (a whole number in `-18..=18`).
    pub fn round(&self, places: &NNumber) -> (r: Result<NNumber, NumError>)
        requires
            self.wf(),
            places.wf(),
        ensures
            ratio_result(r) == spec_round_places(self@, places@),
            r is Ok ==> r->Ok_0.wf(),
    {
        let pm = if places.num < 0 { -(places.num as i128) } else { places.num as i128 };
        if pm % (places.den as i128) != 0 {
            return Err(NumError::NotRepresentable);
        }
        let q = pm / (places.den as i128);
        assert(0 <= q <= pm) by (nonlinear_arith)
            requires q == pm / (places.den as i128), pm >= 0, places.den > 0;
        let p: i128 = if places.num < 0 { -q } else { q };
        assert(pm == abs(places.num as int));
        assert(q == abs(places.num as int) / (places.den as int));
        assert(p == with_sign(places.num as int, abs(places.num as int) / (places.den as int)));
        assert(p == trunc(places@));
        if p < -18 || p > 18 {
            return Err(NumError::OutOfRange);
        }
        if p >= 0 {
            let f = pow10(p as u32);
            proof {
                lemma_wide_product(self.num as int, f as int);
            }
            let x = (self.num as i128) * f;
            assert(-0x4000_0000_0000_0000_0000_0000_0000_0000 <= x <= 0x4000_0000_0000_0000_0000_0000_0000_0000) by (nonlinear_arith)
                requires x == (self.num as i128) * f, fits(self.num as int), 0 < f <= 1_000_000_000_000_000_000;
            let r = round_half_away_exec(x, self.den as i128);
            Self::from_wide(r, f)
        } else {
            let f = pow10((-p) as u32);
            proof {
                lemma_wide_product(self.den as int, f as int);
            }
            let y = (self.den as i128) * f;
            assert(0 < y <= 0x2000_0000_0000_0000_0000_0000_0000_0000) by (nonlinear_arith)
                requires y == (self.den as i128) * f, 0 < self.den <= i64::MAX, 0 < f <= 1_000_000_000_000_000_000;
            let r = round_half_away_exec(self.num as i128, y);
            assert(abs(self.num as int) / (y as int) <= abs(self.num as int)) by (nonlinear_arith)
                requires y > 0;
            assert(-0x4000_0000_0000_0000_0000_0000_0000_0000 <= r * f <= 0x4000_0000_0000_0000_0000_0000_0000_0000) by (nonlinear_arith)
                requires abs(r as int) <= abs(self.num as int) + 1, fits(self.num as int), 0 < f <= 1_000_000_000_000_000_000;
            Self::from_wide(r * f, 1)
        }
    }

    /// The logarithm of `self` to base `b`, where it is a whole number the search finds.
    pub fn log(&self, b: &NNumber) -> (r: Result<NNumber, NumError>)
        requires
            self.wf(),
            b.wf(),
        ensures
            ratio_result(r) == spec_log(self@, b@),
            r is Ok ==> r->Ok_0.wf(),
    {
        let mut k: u64 = 0;
        let mut pn: i128 = 1;
        let mut pd: i128 = 1;
        while k < LOG_LIMIT
            invariant
                k <= LOG_LIMIT,
                pn == pow(b.num as int, k as nat),
                pd == pow(b.den as int, k as nat),
                fits(pn as int),
                fits(pd as int),
                spec_log(self@, b@) == match log_search(self@, b@, k as nat) {
                    Some(j) => Ok((j as int, 1int)),
                    None => Err(NumError::NotRepresentable),
                },
                b.wf(),
                self.wf(),
            decreases LOG_LIMIT - k,
        {
            let here = NNumber { num: pn as i64, den: pd as i64 };
            if here.equals_raw(self) {
                return Ok(NNumber { num: k as i64, den: 1 });
            }
            proof {
                lemma_wide_product(b.num as int, pn as int);
                lemma_wide_product(b.den as int, pd as int);
            }
            let next_n = (b.num as i128) * pn;
            let next_d = (b.den as i128) * pd;
            assert(pow(b.num as int, (k + 1) as nat) == b.num * pow(b.num as int, k as nat));
            assert(pow(b.den as int, (k + 1) as nat) == b.den * pow(b.den as int, k as nat));
            if next_n < -(i64::MAX as i128) || next_n > i64::MAX as i128 || next_d < -(i64::MAX as i128) || next_d > i64::MAX as i128 {
                return Err(NumError::NotRepresentable);
            }
            pn = next_n;
            pd = next_d;
            k = k + 1;
        }
        Err(NumError::NotRepresentable)
    }

    /// Equality of values, for a pair whose parts fit but whose sign may sit in the denominator.
    fn equals_raw(&self, o: &NNumber) -> (r: bool)
        requires
            fits(self.num as int),
            fits(self.den as int),
            o.wf(),
        ensures
            r == same_value(self@, o@),
    {
        proof {
            lemma_wide_product(self.num as int, o.den as int);
            lemma_wide_product(o.num as int, self.den as int);
        }
        (self.num as i128) * (o.den as i128) == (o.num as i128) * (self.den as i128)
    }
}

} // verus!
