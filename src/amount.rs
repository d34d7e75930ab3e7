//! Exact decimal amounts (prices, quantities, fees, profit and loss).
//!
//! An [`Amount`] is the value `mantissa / 10^scale`, held as plain integers
//! in the same range that `rust_decimal::Decimal` covers. Arithmetic is done
//! by `rust_decimal` itself; the functions here convert both ways.
use rust_decimal::Decimal;
use vstd::prelude::*;

verus! {

/// Largest magnitude of a mantissa: 2^96 - 1.
pub const MAX_MANTISSA: i128 = 0xFFFF_FFFF_FFFF_FFFF_FFFF_FFFF;

/// Largest number of digits after the decimal point.
pub const MAX_SCALE: u32 = 28;

/// `10^n`.
pub open spec fn pow10(n: nat) -> int
    decreases n,
{
    if n == 0 {
        1
    } else {
        10 * pow10((n - 1) as nat)
    }
}

/// A decimal number `mantissa / 10^scale`.
#[derive(Clone, Copy, Debug, PartialEq, Eq, Structural)]
pub struct Amount {
    pub mantissa: i128,
    pub scale: u32,
}

/// `a < b` as numbers (both scaled to a common denominator).
pub open spec fn value_lt(a: Amount, b: Amount) -> bool {
    a.mantissa * pow10(b.scale as nat) < b.mantissa * pow10(a.scale as nat)
}

/// What `rust_decimal` returns for `a + b` (`None` on overflow).
pub uninterp spec fn decimal_sum(a: Amount, b: Amount) -> Option<Amount>;

/// What `rust_decimal` returns for `a - b` (`None` on overflow).
pub uninterp spec fn decimal_difference(a: Amount, b: Amount) -> Option<Amount>;

/// What `rust_decimal` returns for `a * b` (`None` on overflow).
pub uninterp spec fn decimal_product(a: Amount, b: Amount) -> Option<Amount>;

/// What `rust_decimal` returns for `a / b` (`None` on overflow or a zero divisor).
pub uninterp spec fn decimal_quotient(a: Amount, b: Amount) -> Option<Amount>;

impl Amount {
    /// The representable range of `rust_decimal::Decimal`.
    pub open spec fn wf(self) -> bool {
        &&& self.scale <= MAX_SCALE
        &&& -MAX_MANTISSA <= self.mantissa <= MAX_MANTISSA
    }

    pub open spec fn is_pos(self) -> bool {
        self.mantissa > 0
    }

    pub open spec fn is_neg(self) -> bool {
        self.mantissa < 0
    }

    pub open spec fn is_zero(self) -> bool {
        self.mantissa == 0
    }

    /// The magnitude, at the same scale.
    pub open spec fn magnitude(self) -> Amount {
        Amount {
            mantissa: if self.mantissa < 0 { (-self.mantissa) as i128 } else { self.mantissa },
            scale: self.scale,
        }
    }

    /// Builds `mantissa / 10^scale`, or `None` outside the representable range.
    pub fn new(mantissa: i128, scale: u32) -> (r: Option<Amount>)
        ensures
            r matches Some(a) ==> a.wf() && a.mantissa == mantissa && a.scale == scale,
            r is None <==> !(Amount { mantissa, scale }).wf(),
    {
        if scale <= MAX_SCALE && -MAX_MANTISSA <= mantissa && mantissa <= MAX_MANTISSA {
            Some(Amount { mantissa, scale })
        } else {
            None
        }
    }

    /// Whether the amount lies in the representable range.
    pub fn is_valid(&self) -> (r: bool)
        ensures
            r == self.wf(),
    {
        self.scale <= MAX_SCALE && -MAX_MANTISSA <= self.mantissa && self.mantissa <= MAX_MANTISSA
    }

    /// Zero, with no digits after the point.
    pub fn zero() -> (r: Amount)
        ensures
            r.wf(),
            r == (Amount { mantissa: 0, scale: 0 }),
    {
        Amount { mantissa: 0, scale: 0 }
    }

    /// A whole number of units.
    pub fn from_count(n: usize) -> (r: Amount)
        ensures
            r.wf(),
            r == (Amount { mantissa: n as i128, scale: 0 }),
    {
        proof {
            assert(n <= usize::MAX);
            assert(usize::MAX <= u64::MAX);
        }
        Amount { mantissa: n as i128, scale: 0 }
    }

    pub fn is_positive(&self) -> (r: bool)
        ensures
            r == self.is_pos(),
    {
        self.mantissa > 0
    }

    pub fn is_negative(&self) -> (r: bool)
        ensures
            r == self.is_neg(),
    {
        self.mantissa < 0
    }

    /// The magnitude, at the same scale.
    pub fn abs(&self) -> (r: Amount)
        requires
            self.wf(),
        ensures
            r.wf(),
            r == self.magnitude(),
    {
        if self.mantissa < 0 {
            Amount { mantissa: -self.mantissa, scale: self.scale }
        } else {
            *self
        }
    }
}

/// Relies on `Decimal`'s `Ord`, which orders decimals by numeric value
/// whatever their scales.
#[verifier::external_body]
pub(crate) fn less_than(a: &Amount, b: &Amount) -> (r: bool)
    requires
        a.wf(),
        b.wf(),
    ensures
        r == value_lt(*a, *b),
{
    Decimal::from_i128_with_scale(a.mantissa, a.scale) < Decimal::from_i128_with_scale(
        b.mantissa,
        b.scale,
    )
}

/// Relies on `Decimal::checked_add`: the sum as `rust_decimal` rounds it,
/// `None` where it overflows; every `Decimal` lies in the representable range.
#[verifier::external_body]
pub(crate) fn checked_add(a: &Amount, b: &Amount) -> (r: Option<Amount>)
    requires
        a.wf(),
        b.wf(),
    ensures
        r == decimal_sum(*a, *b),
        r matches Some(s) ==> s.wf(),
{
    let x = Decimal::from_i128_with_scale(a.mantissa, a.scale);
    let y = Decimal::from_i128_with_scale(b.mantissa, b.scale);
    match x.checked_add(y) {
        Some(d) => Some(Amount { mantissa: d.mantissa(), scale: d.scale() }),
        None => None,
    }
}

/// Relies on `Decimal::checked_sub`: the difference as `rust_decimal` rounds
/// it, `None` where it overflows.
#[verifier::external_body]
pub(crate) fn checked_sub(a: &Amount, b: &Amount) -> (r: Option<Amount>)
    requires
        a.wf(),
        b.wf(),
    ensures
        r == decimal_difference(*a, *b),
        r matches Some(s) ==> s.wf(),
{
    let x = Decimal::from_i128_with_scale(a.mantissa, a.scale);
    let y = Decimal::from_i128_with_scale(b.mantissa, b.scale);
    match x.checked_sub(y) {
        Some(d) => Some(Amount { mantissa: d.mantissa(), scale: d.scale() }),
        None => None,
    }
}

/// Relies on `Decimal::checked_mul`: the product as `rust_decimal` rounds it,
/// `None` where it overflows.
#[verifier::external_body]
pub(crate) fn checked_mul(a: &Amount, b: &Amount) -> (r: Option<Amount>)
    requires
        a.wf(),
        b.wf(),
    ensures
        r == decimal_product(*a, *b),
        r matches Some(s) ==> s.wf(),
{
    let x = Decimal::from_i128_with_scale(a.mantissa, a.scale);
    let y = Decimal::from_i128_with_scale(b.mantissa, b.scale);
    match x.checked_mul(y) {
        Some(d) => Some(Amount { mantissa: d.mantissa(), scale: d.scale() }),
        None => None,
    }
}

/// Relies on `Decimal::checked_div`: the quotient as `rust_decimal` rounds
/// it, `None` where it overflows or the divisor is zero.
#[verifier::external_body]
pub(crate) fn checked_div(a: &Amount, b: &Amount) -> (r: Option<Amount>)
    requires
        a.wf(),
        b.wf(),
    ensures
        r == decimal_quotient(*a, *b),
        r matches Some(s) ==> s.wf(),
{
    let x = Decimal::from_i128_with_scale(a.mantissa, a.scale);
    let y = Decimal::from_i128_with_scale(b.mantissa, b.scale);
    match x.checked_div(y) {
        Some(d) => Some(Amount { mantissa: d.mantissa(), scale: d.scale() }),
        None => None,
    }
}

} // verus!
