//! Exact decimal amounts: a fixed-point value `num * 10^(-scale)` with a
//! 96-bit mantissa and a scale of at most 28 fractional digits.
//!
//! The arithmetic itself is carried out by the `rust_decimal` crate behind
//! small trusted wrappers; each wrapper's contract states the exact result,
//! over the mathematical model [`DecV`], as that crate's source defines it.

use vstd::prelude::*;

verus! {

use crate::numtext::dec_digits;

/// `10^n`.
pub open spec fn pow10(n: nat) -> nat
    decreases n,
{
    if n == 0 {
        1nat
    } else {
        10 * pow10((n - 1) as nat)
    }
}

/// The largest mantissa a decimal value can carry: `2^96 - 1`.
pub open spec fn max_mantissa() -> int {
    79228162514264337593543950335int
}

/// The largest number of fractional digits a decimal value can carry.
pub open spec fn max_dec_scale() -> nat {
    28nat
}

pub open spec fn iabs(n: int) -> int {
    if n < 0 {
        -n
    } else {
        n
    }
}

pub open spec fn nmax(a: nat, b: nat) -> nat {
    if a >= b {
        a
    } else {
        b
    }
}

/// The mathematical model of a decimal value: an integer mantissa and the
/// number of fractional digits. The value denoted is `num * 10^(-scale)`.
pub ghost struct DecV {
    pub num: int,
    pub scale: nat,
}

impl DecV {
    /// A representable decimal: scale at most 28, mantissa within 96 bits.
    pub open spec fn wf(self) -> bool {
        self.scale <= max_dec_scale() && -max_mantissa() <= self.num <= max_mantissa()
    }

    /// The denoted value, expressed exactly as an integer at scale 28:
    /// `val() == num * 10^(28 - scale)`, so two well-formed decimals denote
    /// the same number exactly when their `val()`s are equal.
    pub open spec fn val(self) -> int {
        self.num * pow10((max_dec_scale() - self.scale) as nat)
    }
}

/// A decimal amount: mantissa and scale, denoting `num * 10^(-scale)`.
#[derive(Clone, Copy, Debug, PartialEq, Eq, Structural)]
pub struct Decimal {
    pub num: i128,
    pub scale: u32,
}

impl View for Decimal {
    type V = DecV;

    open spec fn view(&self) -> DecV {
        DecV { num: self.num as int, scale: self.scale as nat }
    }
}

impl Decimal {
    /// A decimal with the given mantissa and number of fractional digits,
    /// denoting `num * 10^(-scale)`.
    pub fn new(num: i64, scale: u32) -> (r: Decimal)
        requires
            scale <= max_dec_scale(),
        ensures
            r@ == (DecV { num: num as int, scale: scale as nat }),
            r@.wf(),
    {
        Decimal { num: num as i128, scale }
    }
}

impl core::convert::From<i64> for Decimal {
    /// The integer as a decimal of scale zero.
    fn from(num: i64) -> (r: Decimal) {
        Decimal { num: num as i128, scale: 0 }
    }
}

impl vstd::std_specs::convert::FromSpecImpl<i64> for Decimal {
    open spec fn obeys_from_spec() -> bool {
        true
    }

    open spec fn from_spec(num: i64) -> Decimal {
        Decimal { num: num as i128, scale: 0 }
    }
}

/// The decimal zero, at scale zero.
pub open spec fn zero_v() -> DecV {
    DecV { num: 0, scale: 0 }
}

/// The decimal one, at scale zero.
pub open spec fn one_v() -> DecV {
    DecV { num: 1, scale: 0 }
}

/// The decimal one hundred, at scale zero.
pub open spec fn hundred_v() -> DecV {
    DecV { num: 100, scale: 0 }
}

/// The sum of two decimals: a zero operand yields the other operand
/// unchanged; otherwise both mantissas are aligned to the larger scale and
/// added exactly.
pub open spec fn add_v(a: DecV, b: DecV) -> DecV {
    if a.num == 0 {
        b
    } else if b.num == 0 {
        a
    } else {
        let m = nmax(a.scale, b.scale);
        DecV {
            num: a.num * pow10((m - a.scale) as nat) + b.num * pow10((m - b.scale) as nat),
            scale: m,
        }
    }
}

/// The difference of two decimals, aligned like [`add_v`].
pub open spec fn sub_v(a: DecV, b: DecV) -> DecV {
    if a.num == 0 {
        DecV { num: -b.num, scale: b.scale }
    } else if b.num == 0 {
        a
    } else {
        let m = nmax(a.scale, b.scale);
        DecV {
            num: a.num * pow10((m - a.scale) as nat) - b.num * pow10((m - b.scale) as nat),
            scale: m,
        }
    }
}

/// Both operands and their sum stay within the 96-bit mantissa once aligned
/// to the common scale, so addition and subtraction are exact.
pub open spec fn add_ok(a: DecV, b: DecV) -> bool {
    let m = nmax(a.scale, b.scale);
    iabs(a.num) * pow10((m - a.scale) as nat) + iabs(b.num) * pow10((m - b.scale) as nat)
        <= max_mantissa()
}

/// The product of two decimals: zero if either operand is zero (at scale 0),
/// else the product of the mantissas at the sum of the scales.
pub open spec fn mul_v(a: DecV, b: DecV) -> DecV {
    if a.num == 0 || b.num == 0 {
        DecV { num: 0, scale: 0 }
    } else {
        DecV { num: a.num * b.num, scale: a.scale + b.scale }
    }
}

/// The product stays within a 96-bit mantissa at a scale of at most 28, so
/// multiplication is exact.
pub open spec fn mul_ok(a: DecV, b: DecV) -> bool {
    a.num == 0 || b.num == 0 || (a.scale + b.scale <= max_dec_scale() && iabs(a.num * b.num)
        <= max_mantissa())
}

/// What dividing one decimal by another returns when the mantissas do not
/// divide exactly at the operands' scales; named, because its digit-by-digit
/// computation with precision-limited rounding and trailing-zero reduction
/// has no short statement.
pub uninterp spec fn quotient_of(a: DecV, b: DecV) -> DecV;

/// The quotient of two decimals: zero dividends yield zero at scale 0; when
/// the divisor's mantissa divides the dividend's exactly and its scale is no
/// larger, the quotient of the mantissas at the difference of the scales;
/// any other case is the named [`quotient_of`].
pub open spec fn div_v(a: DecV, b: DecV) -> DecV {
    if a.num == 0 {
        DecV { num: 0, scale: 0 }
    } else if b.scale <= a.scale && a.num % b.num == 0 {
        DecV { num: a.num / b.num, scale: (a.scale - b.scale) as nat }
    } else {
        quotient_of(a, b)
    }
}

/// `n / 10^k`, rounded half away from zero: a remainder of exactly half
/// rounds to the quotient farther from zero.
pub open spec fn half_away(n: int, k: nat) -> int {
    if n >= 0 {
        (n + pow10(k) / 2) / pow10(k) as int
    } else {
        -(((-n) + pow10(k) / 2) / pow10(k) as int)
    }
}

/// Rounding to `dp` fractional digits, half away from zero: a value with at
/// most `dp` fractional digits is returned unchanged (its scale kept); zero
/// is returned at scale `dp`; otherwise the excess digits are dropped with
/// half-away-from-zero rounding.
pub open spec fn round_v(d: DecV, dp: nat) -> DecV {
    if d.scale <= dp {
        d
    } else if d.num == 0 {
        DecV { num: 0, scale: dp }
    } else {
        DecV { num: half_away(d.num, (d.scale - dp) as nat), scale: dp }
    }
}

/// Setting the scale to exactly `s`: scaling up appends zero digits to the
/// mantissa, scaling down rounds half away from zero.
pub open spec fn rescale_v(d: DecV, s: nat) -> DecV {
    if s == d.scale {
        d
    } else if d.num == 0 {
        DecV { num: 0, scale: if s <= max_dec_scale() { s } else { max_dec_scale() } }
    } else if s > d.scale {
        DecV { num: d.num * pow10((s - d.scale) as nat), scale: s }
    } else {
        DecV { num: half_away(d.num, (d.scale - s) as nat), scale: s }
    }
}

/// Scaling up to `s` keeps the mantissa within 96 bits, so the rescale is
/// exact rather than stopping at the largest reachable scale.
pub open spec fn rescale_ok(d: DecV, s: nat) -> bool {
    s <= max_dec_scale() && (s <= d.scale || iabs(d.num) * pow10((s - d.scale) as nat)
        <= max_mantissa())
}

/// The divisor is nonzero and the quotient's integer part stays within the
/// 96-bit mantissa, so division returns instead of overflowing.
pub open spec fn div_ok(a: DecV, b: DecV) -> bool {
    b.num != 0 && iabs(a.val()) < max_mantissa() * iabs(b.val())
}

/// The plain base-ten rendering of a decimal: the mantissa's digits with a
/// decimal point inserted `scale` digits from the right, padded with leading
/// zeros so the fractional part has exactly `scale` digits, a zero integer
/// part written as "0", and a leading '-' for negative values.
pub open spec fn dec_str_v(d: DecV) -> Seq<char> {
    let raw = dec_digits(iabs(d.num) as nat);
    let padded = if raw.len() >= d.scale {
        raw
    } else {
        Seq::new((d.scale - raw.len()) as nat, |i: int| '0') + raw
    };
    let whole = padded.take(padded.len() - d.scale);
    let core = (if whole.len() == 0 {
        seq!['0']
    } else {
        whole
    }) + (if d.scale > 0 {
        seq!['.'] + padded.skip(padded.len() - d.scale)
    } else {
        Seq::empty()
    });
    if d.num < 0 {
        seq!['-'] + core
    } else {
        core
    }
}

/// Relies on `rust_decimal` addition: operand scales are aligned to the
/// larger scale and the aligned mantissas added exactly when everything fits
/// within 96 bits; a zero operand returns the other operand unchanged.
#[verifier::external_body]
pub fn dec_add(a: &Decimal, b: &Decimal) -> (r: Decimal)
    requires
        a@.wf(),
        b@.wf(),
        add_ok(a@, b@),
    ensures
        r@ == add_v(a@, b@),
        r@.wf(),
{
    let x = rust_decimal::Decimal::from_i128_with_scale(a.num, a.scale);
    let y = rust_decimal::Decimal::from_i128_with_scale(b.num, b.scale);
    let s = x + y;
    Decimal { num: s.mantissa(), scale: s.scale() }
}

/// Relies on `rust_decimal` subtraction: as addition, with a zero first
/// operand returning the negated second operand at its own scale.
#[verifier::external_body]
pub fn dec_sub(a: &Decimal, b: &Decimal) -> (r: Decimal)
    requires
        a@.wf(),
        b@.wf(),
        add_ok(a@, b@),
    ensures
        r@ == sub_v(a@, b@),
        r@.wf(),
{
    let x = rust_decimal::Decimal::from_i128_with_scale(a.num, a.scale);
    let y = rust_decimal::Decimal::from_i128_with_scale(b.num, b.scale);
    let s = x - y;
    Decimal { num: s.mantissa(), scale: s.scale() }
}

/// Relies on `rust_decimal` multiplication: a zero operand yields plain
/// zero, and otherwise the mantissas multiply and the scales add, exactly,
/// when the product fits within 96 bits at a scale of at most 28.
#[verifier::external_body]
pub fn dec_mul(a: &Decimal, b: &Decimal) -> (r: Decimal)
    requires
        a@.wf(),
        b@.wf(),
        mul_ok(a@, b@),
    ensures
        r@ == mul_v(a@, b@),
        r@.wf(),
{
    let x = rust_decimal::Decimal::from_i128_with_scale(a.num, a.scale);
    let y = rust_decimal::Decimal::from_i128_with_scale(b.num, b.scale);
    let s = x * y;
    Decimal { num: s.mantissa(), scale: s.scale() }
}

/// Relies on `rust_decimal` division: a zero dividend yields plain zero; a
/// mantissa that divides exactly (with the dividend's scale at least the
/// divisor's) yields the mantissa quotient at the difference of the scales;
/// every other quotient is the function of the operands named
/// [`quotient_of`]. Dividing by the integer one hundred (with two digits of
/// scale headroom) returns the exact value — the dividend's mantissa with
/// two more fractional digits, up to removed trailing zeros. The
/// [`div_ok`] precondition keeps the quotient's integer part within 96
/// bits, the one case where the call would not return.
#[verifier::external_body]
pub fn dec_div(a: &Decimal, b: &Decimal) -> (r: Decimal)
    requires
        a@.wf(),
        b@.wf(),
        div_ok(a@, b@),
    ensures
        r@ == div_v(a@, b@),
        a@.num != 0 && !(b@.scale <= a@.scale && a@.num % b@.num == 0) ==> r@ == quotient_of(
            a@,
            b@,
        ),
        b@.num == 100 && b@.scale == 0 && a@.scale + 2 <= max_dec_scale() ==> {
            &&& r@.val() * 100 == a@.val()
            &&& iabs(r@.num) <= iabs(a@.num)
            &&& r@.scale <= a@.scale + 2
        },
        r@.wf(),
{
    let x = rust_decimal::Decimal::from_i128_with_scale(a.num, a.scale);
    let y = rust_decimal::Decimal::from_i128_with_scale(b.num, b.scale);
    let s = x / y;
    Decimal { num: s.mantissa(), scale: s.scale() }
}

/// Relies on `rust_decimal`'s `round_dp_with_strategy` with the
/// midpoint-away-from-zero strategy: values with at most `dp` fractional
/// digits pass through unchanged, zero comes back at scale `dp`, and excess
/// digits are dropped rounding half away from zero.
#[verifier::external_body]
pub fn dec_round(d: &Decimal, dp: u32) -> (r: Decimal)
    requires
        d@.wf(),
    ensures
        r@ == round_v(d@, dp as nat),
        r@.wf(),
{
    let x = rust_decimal::Decimal::from_i128_with_scale(d.num, d.scale);
    let s = x.round_dp_with_strategy(dp, rust_decimal::RoundingStrategy::MidpointAwayFromZero);
    Decimal { num: s.mantissa(), scale: s.scale() }
}

/// Relies on `rust_decimal`'s `rescale`: the scale is set to exactly `s`,
/// appending zero digits or rounding half away from zero, provided the
/// scaled-up mantissa still fits within 96 bits.
#[verifier::external_body]
pub fn dec_rescale(d: &Decimal, s: u32) -> (r: Decimal)
    requires
        d@.wf(),
        rescale_ok(d@, s as nat),
    ensures
        r@ == rescale_v(d@, s as nat),
        r@.wf(),
{
    let mut x = rust_decimal::Decimal::from_i128_with_scale(d.num, d.scale);
    x.rescale(s);
    Decimal { num: x.mantissa(), scale: x.scale() }
}

/// Relies on `rust_decimal`'s `Display` implementation: it prints the plain
/// base-ten form of the value with exactly `scale` fractional digits.
#[verifier::external_body]
pub fn dec_to_string(d: &Decimal) -> (r: String)
    requires
        d@.wf(),
    ensures
        r@ == dec_str_v(d@),
{
    rust_decimal::Decimal::from_i128_with_scale(d.num, d.scale).to_string()
}

/// Relies on `rust_decimal`'s ordering: it compares the denoted numeric
/// values exactly, across differing scales.
#[verifier::external_body]
pub fn dec_lt(a: &Decimal, b: &Decimal) -> (r: bool)
    requires
        a@.wf(),
        b@.wf(),
    ensures
        r == (a@.val() < b@.val()),
{
    let x = rust_decimal::Decimal::from_i128_with_scale(a.num, a.scale);
    let y = rust_decimal::Decimal::from_i128_with_scale(b.num, b.scale);
    x < y
}

/// Relies on `rust_decimal`'s equality: it compares the denoted numeric
/// values exactly, across differing scales.
#[verifier::external_body]
pub fn dec_eq_val(a: &Decimal, b: &Decimal) -> (r: bool)
    requires
        a@.wf(),
        b@.wf(),
    ensures
        r == (a@.val() == b@.val()),
{
    let x = rust_decimal::Decimal::from_i128_with_scale(a.num, a.scale);
    let y = rust_decimal::Decimal::from_i128_with_scale(b.num, b.scale);
    x == y
}

/// A value rescaled to a given number of fractional digits, leaving the
/// original untouched.
pub trait CloneAndRescale: Sized {
    /// When the rescale is exact.
    spec fn can_rescale(&self, scale: u32) -> bool;

    /// The rescaled value.
    spec fn rescaled(&self, scale: u32) -> Self;

    /// A copy of the value with its scale set to `scale`; digits dropped by
    /// a lower scale are rounded half away from zero.
    fn clone_with_scale(&self, scale: u32) -> (r: Self)
        requires
            self.can_rescale(scale),
        ensures
            r == self.rescaled(scale),
    ;
}

impl CloneAndRescale for Decimal {
    open spec fn can_rescale(&self, scale: u32) -> bool {
        self@.wf() && rescale_ok(self@, scale as nat)
    }

    open spec fn rescaled(&self, scale: u32) -> Decimal {
        Decimal { num: rescale_v(self@, scale as nat).num as i128, scale: scale }
    }

    fn clone_with_scale(&self, scale: u32) -> (r: Decimal) {
        let r = dec_rescale(self, scale);
        proof {
            assert(r@.scale == scale as nat);
            assert(r.scale == scale);
            assert(r.num as int == rescale_v(self@, scale as nat).num);
        }
        r
    }
}

/// `10^(a+b) == 10^a * 10^b`.
pub proof fn lemma_pow10_adds(a: nat, b: nat)
    ensures
        pow10(a + b) == pow10(a) * pow10(b),
    decreases a,
{
    if a == 0 {
        assert(pow10(a + b) == pow10(b));
        assert(pow10(a) == 1);
        assert(pow10(a) * pow10(b) == pow10(b)) by (nonlinear_arith)
            requires
                pow10(a) == 1,
        ;
    } else {
        lemma_pow10_adds((a - 1) as nat, b);
        assert(pow10(a + b) == 10 * pow10((a - 1) as nat + b));
        assert(pow10((a - 1) as nat + b) == pow10((a - 1) as nat) * pow10(b));
        assert(pow10(a) == 10 * pow10((a - 1) as nat));
        assert(10 * (pow10((a - 1) as nat) * pow10(b)) == (10 * pow10((a - 1) as nat)) * pow10(
            b,
        )) by (nonlinear_arith);
        assert(pow10(a + b) == pow10(a) * pow10(b));
    }
}

/// `10^n` is positive.
pub proof fn lemma_pow10_pos(n: nat)
    ensures
        pow10(n) >= 1,
    decreases n,
{
    if n == 0 {
    } else {
        lemma_pow10_pos((n - 1) as nat);
    }
}

/// Addition of decimals is exact on the denoted values.
pub proof fn lemma_add_v_val(a: DecV, b: DecV)
    requires
        a.scale <= max_dec_scale(),
        b.scale <= max_dec_scale(),
    ensures
        add_v(a, b).val() == a.val() + b.val(),
{
    if a.num == 0 {
        assert(a.val() == 0) by (nonlinear_arith)
            requires
                a.num == 0 && a.val() == a.num * pow10((max_dec_scale() - a.scale) as nat),
        ;
    } else if b.num == 0 {
        assert(b.val() == 0) by (nonlinear_arith)
            requires
                b.num == 0 && b.val() == b.num * pow10((max_dec_scale() - b.scale) as nat),
        ;
    } else {
        let m = nmax(a.scale, b.scale);
        let pa = pow10((m - a.scale) as nat);
        let pb = pow10((m - b.scale) as nat);
        let pm = pow10((max_dec_scale() - m) as nat);
        lemma_pow10_adds((m - a.scale) as nat, (max_dec_scale() - m) as nat);
        lemma_pow10_adds((m - b.scale) as nat, (max_dec_scale() - m) as nat);
        assert((a.num * pa + b.num * pb) * pm == a.num * (pa * pm) + b.num * (pb * pm))
            by (nonlinear_arith);
    }
}

/// In-range addition yields a well-formed decimal.
pub proof fn lemma_add_v_wf(a: DecV, b: DecV)
    requires
        a.wf(),
        b.wf(),
        add_ok(a, b),
    ensures
        add_v(a, b).wf(),
{
    if a.num == 0 || b.num == 0 {
    } else {
        let m = nmax(a.scale, b.scale);
        let pa = pow10((m - a.scale) as nat);
        let pb = pow10((m - b.scale) as nat);
        lemma_pow10_pos((m - a.scale) as nat);
        lemma_pow10_pos((m - b.scale) as nat);
        assert(iabs(a.num * pa) == iabs(a.num) * pa) by (nonlinear_arith)
            requires
                pa >= 1,
        ;
        assert(iabs(b.num * pb) == iabs(b.num) * pb) by (nonlinear_arith)
            requires
                pb >= 1,
        ;
    }
}

/// `10^a <= 10^b` when `a <= b`.
pub proof fn lemma_pow10_le(a: nat, b: nat)
    requires
        a <= b,
    ensures
        pow10(a) <= pow10(b),
    decreases b,
{
    if a == b {
    } else {
        lemma_pow10_le(a, (b - 1) as nat);
        lemma_pow10_pos((b - 1) as nat);
    }
}

/// Rounding half away from zero is unchanged by scaling numerator and
/// divisor by the same power of ten.
pub proof fn lemma_half_away_shift(n: int, k: nat, d: nat)
    ensures
        half_away(n * pow10(d), k + d) == half_away(n, k),
{
    lemma_pow10_pos(d);
    lemma_pow10_pos(k);
    lemma_pow10_adds(k, d);
    let dd = pow10(d) as int;
    let pk = pow10(k) as int;
    if n >= 0 {
        assert(n * dd >= 0) by (nonlinear_arith)
            requires
                n >= 0 && dd >= 1,
        ;
        lemma_half_away_shift_nonneg(n, k, d);
    } else {
        assert(n * dd < 0) by (nonlinear_arith)
            requires
                n < 0 && dd >= 1,
        ;
        assert((-n) * dd == -(n * dd)) by (nonlinear_arith);
        lemma_half_away_shift_nonneg(-n, k, d);
    }
}

proof fn lemma_half_away_shift_nonneg(n: int, k: nat, d: nat)
    requires
        n >= 0,
    ensures
        (n * pow10(d) + pow10(k + d) / 2) / pow10(k + d) as int == (n + pow10(k) / 2) / pow10(
            k,
        ) as int,
{
    lemma_pow10_pos(d);
    lemma_pow10_pos(k);
    lemma_pow10_adds(k, d);
    let dd = pow10(d) as int;
    let pk = pow10(k) as int;
    let pkd = pow10(k + d) as int;
    assert(pkd == pk * dd);
    if d == 0 {
        assert(n * 1 == n) by (nonlinear_arith);
    } else if k == 0 {
        // Divisor 10^d, half 10^d / 2, quotient exactly n.
        assert(pkd == dd);
        assert(dd % 2 == 0 && dd / 2 < dd) by {
            lemma_pow10_even_half(d);
        }
        assert((dd * n + dd / 2) / dd == n) by {
            vstd::arithmetic::div_mod::lemma_div_multiples_vanish_fancy(n, dd / 2, dd);
        }
        assert(n * dd == dd * n) by (nonlinear_arith);
        assert(pk == 1);
        vstd::arithmetic::div_mod::lemma_div_basics(n);
        assert((n + pk / 2) / pk as int == n);
    } else {
        // Factor 10^d out of numerator and divisor.
        lemma_pow10_even_half(k);
        let q = (n + pk / 2) / pk;
        let r = (n + pk / 2) % pk;
        vstd::arithmetic::div_mod::lemma_fundamental_div_mod(n + pk / 2, pk);
        assert(n + pk / 2 == pk * q + r);
        assert(0 <= r < pk) by {
            vstd::arithmetic::div_mod::lemma_mod_bound(n + pk / 2, pk);
        }
        assert(pkd / 2 == (pk / 2) * dd) by {
            lemma_pow10_even_half(k + d);
            assert(pk * dd / 2 == (pk / 2) * dd) by (nonlinear_arith)
                requires
                    pk % 2 == 0 && pk * dd == pkd && pkd % 2 == 0,
            ;
        }
        assert(n * dd + pkd / 2 == pkd * q + r * dd) by (nonlinear_arith)
            requires
                n + pk / 2 == pk * q + r && pkd == pk * dd && pkd / 2 == (pk / 2) * dd,
        ;
        assert(0 <= r * dd < pkd) by (nonlinear_arith)
            requires
                0 <= r < pk && dd >= 1 && pkd == pk * dd,
        ;
        assert((pkd * q + r * dd) / pkd == q) by {
            vstd::arithmetic::div_mod::lemma_div_multiples_vanish_fancy(q, r * dd, pkd);
        }
    }
}

proof fn lemma_pow10_even_half(k: nat)
    requires
        k >= 1,
    ensures
        pow10(k) % 2 == 0,
        pow10(k) / 2 < pow10(k),
        2 * (pow10(k) / 2) == pow10(k),
    decreases k,
{
    lemma_pow10_pos((k - 1) as nat);
    let p = pow10((k - 1) as nat) as int;
    assert(pow10(k) == 10 * p);
    assert((10 * p) % 2 == 0 && 2 * ((10 * p) / 2) == 10 * p && (10 * p) / 2 == 5 * p)
        by (nonlinear_arith)
        requires
            p >= 1,
    ;
}

/// Multiplication of decimals is exact on the denoted values, one factor of
/// `10^28` apart.
pub proof fn lemma_mul_v_val(a: DecV, b: DecV)
    requires
        mul_ok(a, b),
    ensures
        mul_v(a, b).val() * pow10(max_dec_scale()) == a.val() * b.val(),
{
    if a.num == 0 || b.num == 0 {
        assert(mul_v(a, b).val() == 0) by (nonlinear_arith)
            requires
                mul_v(a, b).num == 0 && mul_v(a, b).val() == mul_v(a, b).num * pow10(
                    (max_dec_scale() - mul_v(a, b).scale) as nat,
                ),
        ;
        assert(a.val() * b.val() == 0) by (nonlinear_arith)
            requires
                (a.num == 0 || b.num == 0) && a.val() == a.num * pow10(
                    (max_dec_scale() - a.scale) as nat,
                ) && b.val() == b.num * pow10((max_dec_scale() - b.scale) as nat),
        ;
    } else {
        let pa = pow10((max_dec_scale() - a.scale) as nat);
        let pb = pow10((max_dec_scale() - b.scale) as nat);
        let pm = pow10((max_dec_scale() - (a.scale + b.scale)) as nat);
        lemma_pow10_adds(
            (max_dec_scale() - (a.scale + b.scale)) as nat,
            max_dec_scale(),
        );
        lemma_pow10_adds((max_dec_scale() - a.scale) as nat, (max_dec_scale() - b.scale) as nat);
        assert(pa * pb == pm * pow10(max_dec_scale()));
        assert((a.num * b.num) * pm * pow10(max_dec_scale()) == (a.num * pa) * (b.num * pb))
            by (nonlinear_arith)
            requires
                pa * pb == pm * pow10(max_dec_scale()),
        ;
        assert(mul_v(a, b).val() * pow10(max_dec_scale()) == (a.num * b.num) * pm * pow10(
            max_dec_scale(),
        )) by (nonlinear_arith)
            requires
                mul_v(a, b).val() == (a.num * b.num) * pm,
        ;
    }
}

/// Rescaling to two fractional digits is determined by the denoted value:
/// the result's mantissa is the value rounded half away from zero at the
/// twenty-six excess digits of the scale-28 representation.
pub proof fn lemma_rescale2_val(d: DecV)
    requires
        d.wf(),
    ensures
        rescale_v(d, 2) == (DecV { num: half_away(d.val(), 26), scale: 2 }),
{
    if d.num == 0 {
        assert(d.val() == 0) by (nonlinear_arith)
            requires
                d.num == 0 && d.val() == d.num * pow10((max_dec_scale() - d.scale) as nat),
        ;
        lemma_pow10_pos(26);
        assert(half_away(0, 26) == 0) by {
            vstd::arithmetic::div_mod::lemma_div_pos_is_pos(
                pow10(26) as int / 2,
                pow10(26) as int,
            );
            vstd::arithmetic::div_mod::lemma_basic_div(pow10(26) as int / 2, pow10(26) as int);
            lemma_pow10_even_half(26);
        }
    } else if d.scale == 2 {
        lemma_half_away_shift(d.num, 0, 26);
        assert(half_away(d.num, 0) == d.num) by {
            lemma_half_away_zero(d.num);
        }
    } else if d.scale < 2 {
        let up = d.num * pow10((2 - d.scale) as nat) as int;
        lemma_pow10_adds((2 - d.scale) as nat, 26);
        assert(up * pow10(26) == d.num * pow10((max_dec_scale() - d.scale) as nat))
            by (nonlinear_arith)
            requires
                up == d.num * pow10((2 - d.scale) as nat) && pow10((2 - d.scale) as nat) * pow10(
                    26,
                ) == pow10((max_dec_scale() - d.scale) as nat),
        ;
        lemma_half_away_shift(up, 0, 26);
        lemma_half_away_zero(up);
    } else {
        lemma_pow10_adds((d.scale - 2) as nat, (max_dec_scale() - d.scale) as nat);
        lemma_half_away_shift(d.num, (d.scale - 2) as nat, (max_dec_scale() - d.scale) as nat);
    }
}

proof fn lemma_half_away_zero(n: int)
    ensures
        half_away(n, 0) == n,
{
    assert(pow10(0) == 1);
    if n >= 0 {
        vstd::arithmetic::div_mod::lemma_div_basics(n);
    } else {
        vstd::arithmetic::div_mod::lemma_div_basics(-n);
    }
}

/// Rescaling to two fractional digits the quotient by one hundred of an
/// exact product yields exactly the factors' value product rounded half away
/// from zero at fifty-six digits — the two-digit rounding of
/// `a * b / 100`.
pub proof fn lemma_percent_product_rounded(a: DecV, b: DecV, m: DecV, q: DecV)
    requires
        mul_ok(a, b),
        m == mul_v(a, b),
        q.wf(),
        q.val() * 100 == m.val(),
    ensures
        rescale_v(q, 2) == (DecV { num: half_away(a.val() * b.val(), 56), scale: 2 }),
{
    lemma_rescale2_val(q);
    lemma_mul_v_val(a, b);
    assert(pow10(0) == 1);
    assert(pow10(1) == 10 * pow10(0));
    assert(pow10(2) == 10 * pow10(1));
    lemma_half_away_shift(q.val(), 26, 2);
    assert(q.val() * pow10(2) == m.val());
    assert(half_away(m.val(), 28) == half_away(q.val(), 26));
    lemma_half_away_shift(m.val(), 28, 28);
    assert(m.val() * pow10(28) == a.val() * b.val());
    assert(half_away(a.val() * b.val(), 56) == half_away(m.val(), 28));
}

/// Rescaling to two fractional digits a product with the quotient of a
/// value by one hundred yields exactly the two-digit half-away rounding of
/// `t * p / 100`, stated over the denoted values at fifty-six digits below
/// the scale-28 product.
pub proof fn lemma_percent_of_amount_rounded(t: DecV, p: DecV, q: DecV, m: DecV)
    requires
        q.wf(),
        q.val() * 100 == p.val(),
        mul_ok(t, q),
        m == mul_v(t, q),
    ensures
        rescale_v(m, 2) == (DecV { num: half_away(t.val() * p.val(), 56), scale: 2 }),
{
    assert(m.wf()) by {
        if t.num == 0 || q.num == 0 {
        } else {
            assert(-max_mantissa() <= m.num <= max_mantissa()) by {
                assert(iabs(m.num) <= max_mantissa());
            }
        }
    }
    lemma_rescale2_val(m);
    lemma_mul_v_val(t, q);
    lemma_half_away_shift(m.val(), 26, 30);
    lemma_pow10_adds(28, 2);
    assert(pow10(0) == 1);
    assert(pow10(1) == 10 * pow10(0));
    assert(pow10(2) == 10 * pow10(1));
    assert(m.val() * pow10(30) == t.val() * p.val()) by (nonlinear_arith)
        requires
            m.val() * pow10(28) == t.val() * q.val() && q.val() * 100 == p.val() && pow10(30)
                == pow10(28) * pow10(2) && pow10(2) == 100,
    ;
    assert(pow10(max_dec_scale()) == pow10(28));
}

/// A well-formed value can always be divided by the integer one hundred
/// without overflow.
pub proof fn lemma_div_by_hundred_ok(a: DecV)
    requires
        a.wf(),
    ensures
        div_ok(a, hundred_v()),
{
    lemma_pow10_pos((max_dec_scale() - a.scale) as nat);
    lemma_pow10_le((max_dec_scale() - a.scale) as nat, max_dec_scale());
    lemma_pow10_pos(max_dec_scale());
    let p = pow10((max_dec_scale() - a.scale) as nat) as int;
    let p28 = pow10(max_dec_scale()) as int;
    assert(iabs(a.val()) == iabs(a.num) * p) by (nonlinear_arith)
        requires
            p >= 1 && a.val() == a.num * p,
    ;
    assert(iabs(a.num) * p <= max_mantissa() * p28) by (nonlinear_arith)
        requires
            0 <= iabs(a.num) <= max_mantissa() && 1 <= p <= p28,
    ;
    assert(iabs(hundred_v().val()) == 100 * p28) by (nonlinear_arith)
        requires
            p28 >= 1 && hundred_v().val() == 100 * p28,
    ;
    assert(max_mantissa() * p28 < max_mantissa() * (100 * p28)) by (nonlinear_arith)
        requires
            p28 >= 1,
    ;
    assert(max_mantissa() * (100 * p28) == max_mantissa() * iabs(hundred_v().val()));
}

/// Rounding is idempotent: rounding an already rounded value to the same
/// number of fractional digits returns it unchanged.
pub proof fn lemma_round_idempotent(d: DecV, dp: nat)
    ensures
        round_v(round_v(d, dp), dp) == round_v(d, dp),
{
}

} // verus!
