//! Decimal numbers as plain values, with the arithmetic of `rust_decimal`.
//!
//! A `Dec` holds the mantissa and scale of a `rust_decimal::Decimal`; its value
//! is `mantissa / 10^scale`. Arithmetic that can round or overflow is done by
//! `rust_decimal` itself, behind the wrappers at the end of this file.

use vstd::prelude::*;
use rust_decimal::prelude::ToPrimitive;
use crate::text::{nat_text, zero_pad};

verus! {

/// The largest mantissa magnitude a decimal can hold (96 bits).
pub const MAX_MANTISSA: i128 = 0xFFFF_FFFF_FFFF_FFFF_FFFF_FFFFi128;

/// The largest scale a decimal can hold.
pub const MAX_SCALE: u32 = 28;

/// A decimal number: `mantissa / 10^scale`.
#[derive(Debug, Clone, Copy, PartialEq, Eq, Structural)]
pub struct Dec {
    /// The signed integer digits.
    pub mantissa: i128,
    /// The number of digits after the decimal point.
    pub scale: u32,
}

/// Three-way comparison outcome.
#[derive(Debug, Clone, Copy, PartialEq, Eq, Structural)]
pub enum Order {
    /// Left is smaller.
    Less,
    /// Both are equal.
    Equal,
    /// Left is larger.
    Greater,
}

/// Ten to the power `n`.
pub open spec fn pow10(n: nat) -> int
    decreases n,
{
    if n == 0 {
        1
    } else {
        10 * pow10((n - 1) as nat)
    }
}

pub proof fn lemma_pow10_pos(n: nat)
    ensures
        pow10(n) >= 1,
    decreases n,
{
    if n > 0 {
        lemma_pow10_pos((n - 1) as nat);
    }
}

impl Dec {
    /// The mantissa and scale are within what `rust_decimal` can hold.
    pub open spec fn wf(self) -> bool {
        -MAX_MANTISSA <= self.mantissa <= MAX_MANTISSA && self.scale <= MAX_SCALE
    }

    /// The mantissa brought to the common scale of `self` and `other`
    /// (multiplied by `10^other.scale`).
    pub open spec fn cross(self, other: Dec) -> int {
        self.mantissa * pow10(other.scale as nat)
    }

    /// The numeric comparison of two decimals.
    pub open spec fn order_with(self, other: Dec) -> Order {
        if self.cross(other) < other.cross(self) {
            Order::Less
        } else if self.cross(other) == other.cross(self) {
            Order::Equal
        } else {
            Order::Greater
        }
    }

    /// Numeric equality.
    pub open spec fn same_value(self, other: Dec) -> bool {
        self.order_with(other) == Order::Equal
    }

    /// Whether the value is zero.
    pub open spec fn is_zero_spec(self) -> bool {
        self.mantissa == 0
    }

    /// The decimal zero.
    pub fn zero() -> (res: Dec)
        ensures
            res.mantissa == 0,
            res.scale == 0,
            res.wf(),
    {
        Dec { mantissa: 0, scale: 0 }
    }

    /// The decimal one.
    pub fn one() -> (res: Dec)
        ensures
            res.mantissa == 1,
            res.scale == 0,
            res.wf(),
    {
        Dec { mantissa: 1, scale: 0 }
    }

    /// Build a decimal from an integer mantissa and a scale.
    pub fn new(mantissa: i64, scale: u32) -> (res: Dec)
        requires
            scale <= MAX_SCALE,
        ensures
            res.mantissa == mantissa,
            res.scale == scale,
            res.wf(),
    {
        Dec { mantissa: mantissa as i128, scale }
    }

    /// The decimal with the value of an integer.
    pub fn from_i64(i: i64) -> (res: Dec)
        ensures
            res.mantissa == i,
            res.scale == 0,
            res.wf(),
    {
        Dec { mantissa: i as i128, scale: 0 }
    }

    /// Whether the value is zero.
    pub fn is_zero(&self) -> (res: bool)
        ensures
            res == self.is_zero_spec(),
    {
        self.mantissa == 0
    }

    /// Whether the value is below zero.
    pub fn is_negative(&self) -> (res: bool)
        ensures
            res == (self.mantissa < 0),
    {
        self.mantissa < 0
    }

    /// The negated decimal.
    pub fn neg(&self) -> (res: Dec)
        requires
            self.wf(),
        ensures
            res.mantissa == -self.mantissa,
            res.scale == self.scale,
            res.wf(),
    {
        Dec { mantissa: -self.mantissa, scale: self.scale }
    }

    /// The absolute value.
    pub fn abs(&self) -> (res: Dec)
        requires
            self.wf(),
        ensures
            res.mantissa == (if self.mantissa < 0 { -self.mantissa } else { self.mantissa as int }),
            res.scale == self.scale,
            res.wf(),
    {
        if self.mantissa < 0 {
            Dec { mantissa: -self.mantissa, scale: self.scale }
        } else {
            *self
        }
    }

    /// Numeric comparison.
    pub fn compare(&self, other: &Dec) -> (res: Order)
        requires
            self.wf(),
            other.wf(),
        ensures
            res == self.order_with(*other),
    {
        decimal_order(*self, *other)
    }

    /// Numeric equality.
    pub fn eq_value(&self, other: &Dec) -> (res: bool)
        requires
            self.wf(),
            other.wf(),
        ensures
            res == self.same_value(*other),
    {
        match decimal_order(*self, *other) {
            Order::Equal => true,
            _ => false,
        }
    }

    /// Numeric `<`.
    pub fn lt(&self, other: &Dec) -> (res: bool)
        requires
            self.wf(),
            other.wf(),
        ensures
            res == (self.order_with(*other) == Order::Less),
    {
        match decimal_order(*self, *other) {
            Order::Less => true,
            _ => false,
        }
    }

    /// The larger of two decimals (the first one when they are equal).
    pub fn max(&self, other: &Dec) -> (res: Dec)
        requires
            self.wf(),
            other.wf(),
        ensures
            res == (if self.order_with(*other) == Order::Less { *other } else { *self }),
    {
        if self.lt(other) {
            *other
        } else {
            *self
        }
    }
}

/// What `Decimal::checked_add` returns for two decimals.
pub uninterp spec fn decimal_checked_add(a: Dec, b: Dec) -> Option<Dec>;

/// What `Decimal::checked_sub` returns for two decimals.
pub uninterp spec fn decimal_checked_sub(a: Dec, b: Dec) -> Option<Dec>;

/// What `Decimal::checked_mul` returns for two decimals.
pub uninterp spec fn decimal_checked_mul(a: Dec, b: Dec) -> Option<Dec>;

/// What `Decimal::checked_div` returns for two decimals.
pub uninterp spec fn decimal_checked_div(a: Dec, b: Dec) -> Option<Dec>;

/// What `Decimal::checked_rem` returns for two decimals.
pub uninterp spec fn decimal_checked_rem(a: Dec, b: Dec) -> Option<Dec>;

/// A whole number divided by `p`, rounded to the nearest, halves to even.
pub open spec fn round_half_even(mag: nat, p: nat) -> nat {
    let q = mag / p;
    let r = mag % p;
    if 2 * r > p || (2 * r == p && q % 2 == 1) {
        q + 1
    } else {
        q
    }
}

/// What `Decimal::round_dp` returns: the decimal unchanged when it has no
/// more than `dp` places, else rounded to `dp` places, halves to even.
pub open spec fn decimal_round_dp(a: Dec, dp: u32) -> Dec {
    if a.scale <= dp {
        a
    } else {
        let mag: nat = (if a.mantissa < 0 { -a.mantissa } else { a.mantissa as int }) as nat;
        let r = round_half_even(mag, pow10((a.scale - dp) as nat) as nat);
        Dec { mantissa: (if a.mantissa < 0 { -r } else { r as int }) as i128, scale: dp }
    }
}

/// The characters that `Display` of `Decimal` writes for a decimal: a `-`
/// for a negative value, the whole part, and, when the scale is not zero, a
/// `.` and the fraction written with exactly `scale` digits.
pub open spec fn decimal_display(a: Dec) -> Seq<char> {
    let mag: nat = (if a.mantissa < 0 { -a.mantissa } else { a.mantissa as int }) as nat;
    let p: nat = pow10(a.scale as nat) as nat;
    let sign: Seq<char> = if a.mantissa < 0 { seq!['-'] } else { Seq::empty() };
    let body = if a.scale == 0 {
        nat_text(mag)
    } else {
        nat_text(mag / p) + seq!['.'] + zero_pad(nat_text(mag % p), a.scale as int)
    };
    sign + body
}

/// Calls `Ord::cmp` of `rust_decimal::Decimal`, which compares numerically:
/// the contract says the outcome is the order of `a.mantissa / 10^a.scale`
/// and `b.mantissa / 10^b.scale`.
#[verifier::external_body]
fn decimal_order(a: Dec, b: Dec) -> (res: Order)
    requires
        a.wf(),
        b.wf(),
    ensures
        res == a.order_with(b),
{
    let x = rust_decimal::Decimal::from_i128_with_scale(a.mantissa, a.scale);
    let y = rust_decimal::Decimal::from_i128_with_scale(b.mantissa, b.scale);
    match x.cmp(&y) {
        core::cmp::Ordering::Less => Order::Less,
        core::cmp::Ordering::Equal => Order::Equal,
        core::cmp::Ordering::Greater => Order::Greater,
    }
}

/// Calls `rust_decimal::Decimal::checked_add`; its result, read back as
/// mantissa and scale, is named `decimal_checked_add`.
#[verifier::external_body]
pub(crate) fn checked_add(a: Dec, b: Dec) -> (res: Option<Dec>)
    requires
        a.wf(),
        b.wf(),
    ensures
        res == decimal_checked_add(a, b),
        res matches Some(r) ==> r.wf(),
{
    let x = rust_decimal::Decimal::from_i128_with_scale(a.mantissa, a.scale);
    let y = rust_decimal::Decimal::from_i128_with_scale(b.mantissa, b.scale);
    x.checked_add(y).map(|r| Dec { mantissa: r.mantissa(), scale: r.scale() })
}

/// Calls `rust_decimal::Decimal::checked_sub`; its result is named
/// `decimal_checked_sub`.
#[verifier::external_body]
pub(crate) fn checked_sub(a: Dec, b: Dec) -> (res: Option<Dec>)
    requires
        a.wf(),
        b.wf(),
    ensures
        res == decimal_checked_sub(a, b),
        res matches Some(r) ==> r.wf(),
{
    let x = rust_decimal::Decimal::from_i128_with_scale(a.mantissa, a.scale);
    let y = rust_decimal::Decimal::from_i128_with_scale(b.mantissa, b.scale);
    x.checked_sub(y).map(|r| Dec { mantissa: r.mantissa(), scale: r.scale() })
}

/// Calls `rust_decimal::Decimal::checked_mul`; its result is named
/// `decimal_checked_mul`.
#[verifier::external_body]
pub(crate) fn checked_mul(a: Dec, b: Dec) -> (res: Option<Dec>)
    requires
        a.wf(),
        b.wf(),
    ensures
        res == decimal_checked_mul(a, b),
        res matches Some(r) ==> r.wf(),
{
    let x = rust_decimal::Decimal::from_i128_with_scale(a.mantissa, a.scale);
    let y = rust_decimal::Decimal::from_i128_with_scale(b.mantissa, b.scale);
    x.checked_mul(y).map(|r| Dec { mantissa: r.mantissa(), scale: r.scale() })
}

/// Calls `rust_decimal::Decimal::checked_div`; its result is named
/// `decimal_checked_div`. The crate documents `None` for a zero divisor,
/// which is stated.
#[verifier::external_body]
pub(crate) fn checked_div(a: Dec, b: Dec) -> (res: Option<Dec>)
    requires
        a.wf(),
        b.wf(),
    ensures
        res == decimal_checked_div(a, b),
        res matches Some(r) ==> r.wf(),
        b.mantissa == 0 ==> res is None,
{
    let x = rust_decimal::Decimal::from_i128_with_scale(a.mantissa, a.scale);
    let y = rust_decimal::Decimal::from_i128_with_scale(b.mantissa, b.scale);
    x.checked_div(y).map(|r| Dec { mantissa: r.mantissa(), scale: r.scale() })
}

/// Calls `rust_decimal::Decimal::checked_rem`; its result is named
/// `decimal_checked_rem`. A zero divisor gives `None`, which is stated.
#[verifier::external_body]
pub(crate) fn checked_rem(a: Dec, b: Dec) -> (res: Option<Dec>)
    requires
        a.wf(),
        b.wf(),
    ensures
        res == decimal_checked_rem(a, b),
        res matches Some(r) ==> r.wf(),
        b.mantissa == 0 ==> res is None,
{
    let x = rust_decimal::Decimal::from_i128_with_scale(a.mantissa, a.scale);
    let y = rust_decimal::Decimal::from_i128_with_scale(b.mantissa, b.scale);
    x.checked_rem(y).map(|r| Dec { mantissa: r.mantissa(), scale: r.scale() })
}

/// Calls `rust_decimal::Decimal::round_dp`, which the crate's source rounds as
/// `decimal_round_dp` states (its midpoint rule is `MidpointNearestEven`).
#[verifier::external_body]
pub(crate) fn round_dp(a: Dec, dp: u32) -> (res: Dec)
    requires
        a.wf(),
    ensures
        res == decimal_round_dp(a, dp),
        res.wf(),
{
    let x = rust_decimal::Decimal::from_i128_with_scale(a.mantissa, a.scale);
    let r = x.round_dp(dp);
    Dec { mantissa: r.mantissa(), scale: r.scale() }
}

/// The whole part of a decimal, rounded toward zero.
pub open spec fn trunc_int(d: Dec) -> int {
    if d.mantissa >= 0 {
        d.mantissa as int / pow10(d.scale as nat)
    } else {
        -((-d.mantissa) / pow10(d.scale as nat))
    }
}

/// Calls `ToPrimitive::to_i64` of `rust_decimal::Decimal`, which truncates
/// the fraction and gives `None` when the whole part does not fit.
#[verifier::external_body]
pub(crate) fn to_i64(d: Dec) -> (res: Option<i64>)
    requires
        d.wf(),
    ensures
        res == (if i64::MIN <= trunc_int(d) <= i64::MAX { Some(trunc_int(d) as i64) } else { None }),
{
    rust_decimal::Decimal::from_i128_with_scale(d.mantissa, d.scale).to_i64()
}

/// Calls `ToPrimitive::to_i32` of `rust_decimal::Decimal`, which truncates
/// the fraction and gives `None` when the whole part does not fit.
#[verifier::external_body]
pub(crate) fn to_i32(d: Dec) -> (res: Option<i32>)
    requires
        d.wf(),
    ensures
        res == (if i32::MIN <= trunc_int(d) <= i32::MAX { Some(trunc_int(d) as i32) } else { None }),
{
    rust_decimal::Decimal::from_i128_with_scale(d.mantissa, d.scale).to_i32()
}

/// Calls `ToPrimitive::to_u32` of `rust_decimal::Decimal`, which gives `None`
/// for a negative sign, truncates the fraction and gives `None` when the
/// whole part does not fit.
#[verifier::external_body]
pub(crate) fn to_u32(d: Dec) -> (res: Option<u32>)
    requires
        d.wf(),
    ensures
        res == (if d.mantissa >= 0 && trunc_int(d) <= u32::MAX { Some(trunc_int(d) as u32) } else { None }),
{
    rust_decimal::Decimal::from_i128_with_scale(d.mantissa, d.scale).to_u32()
}

/// Calls `Decimal::fract` and `Decimal::is_zero`: whether a decimal has no
/// fractional part.
#[verifier::external_body]
pub(crate) fn fract_is_zero(d: Dec) -> (res: bool)
    requires
        d.wf(),
    ensures
        res == ((if d.mantissa < 0 { -d.mantissa } else { d.mantissa as int }) % pow10(d.scale as nat) == 0),
{
    rust_decimal::Decimal::from_i128_with_scale(d.mantissa, d.scale).fract().is_zero()
}

/// Calls `ToString::to_string` (the `Display` impl) of `rust_decimal::Decimal`,
/// whose text the crate's source writes as `decimal_display` states.
#[verifier::external_body]
pub(crate) fn to_text(a: Dec) -> (res: String)
    requires
        a.wf(),
    ensures
        res@ == decimal_display(a),
{
    let x = rust_decimal::Decimal::from_i128_with_scale(a.mantissa, a.scale);
    x.to_string()
}

} // verus!
