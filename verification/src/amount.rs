//! Money amounts: decimals as `rust_decimal` holds them (a 96-bit mantissa,
//! a scale of at most 28 decimal places, and a sign), with the arithmetic
//! and comparison done by `rust_decimal`.
use vstd::prelude::*;
use rust_decimal::Decimal;
use vstd::std_specs::cmp::PartialEqSpecImpl;

verus! {

/// The largest magnitude of a decimal mantissa (96 bits).
pub const MAX_UNITS: i128 = 0xFFFF_FFFF_FFFF_FFFF_FFFF_FFFF;

/// Largest scale (number of decimal places) a decimal can carry.
pub const MAX_SCALE: u32 = 28;

/// Number of decimal places an amount is kept to.
pub const AMOUNT_SCALE: u32 = 4;

/// `10` raised to `n`.
pub open spec fn pow10(n: nat) -> nat
    decreases n,
{
    if n == 0 {
        1
    } else {
        10 * pow10((n - 1) as nat)
    }
}

/// Division that rounds toward zero.
pub open spec fn trunc_div(m: int, d: int) -> int {
    if m >= 0 {
        m / d
    } else {
        -((-m) / d)
    }
}

/// Whether `u` fits in a decimal mantissa.
pub open spec fn units_in_range(u: int) -> bool {
    -MAX_UNITS <= u <= MAX_UNITS
}

/// A decimal as its parts: the signed mantissa, the scale, and the sign
/// (which also tells a negative zero); the value is `mantissa * 10^-scale`.
pub struct AmountView {
    pub mantissa: i128,
    pub scale: u32,
    pub negative: bool,
}

impl AmountView {
    /// The parts of a decimal: a 96-bit mantissa, a scale of at most 28, and
    /// a sign that agrees with a nonzero mantissa.
    pub open spec fn wf(self) -> bool {
        &&& units_in_range(self.mantissa as int)
        &&& self.scale <= MAX_SCALE
        &&& self.mantissa != 0 ==> self.negative == (self.mantissa < 0)
    }

    /// The value in units of `10^-28`.
    pub open spec fn value(self) -> int {
        self.mantissa * pow10((MAX_SCALE - self.scale) as nat)
    }

    /// The zero that an account's held funds start from (`Decimal::ZERO`).
    pub open spec fn zero() -> AmountView {
        AmountView { mantissa: 0, scale: 0, negative: false }
    }
}

/// The mantissa of the exact sum of `a` and `b` at the larger of their scales.
pub open spec fn exact_sum_mantissa(a: AmountView, b: AmountView) -> int {
    let s = if a.scale >= b.scale { a.scale } else { b.scale };
    a.mantissa * pow10((s - a.scale) as nat) + b.mantissa * pow10((s - b.scale) as nat)
}

/// The mantissa of the exact difference `a - b` at the larger of their scales.
pub open spec fn exact_difference_mantissa(a: AmountView, b: AmountView) -> int {
    let s = if a.scale >= b.scale { a.scale } else { b.scale };
    a.mantissa * pow10((s - a.scale) as nat) - b.mantissa * pow10((s - b.scale) as nat)
}

/// The mantissa and scale that `trunc_with_scale(places)` reaches from a
/// scale below `places`: multiplied by ten as often as the mantissa still
/// fits in 96 bits, up to `places`.
pub open spec fn raise_scale(mantissa: int, scale: nat, places: nat) -> (int, nat)
    decreases places - scale,
{
    if scale >= places || !units_in_range(mantissa * 10) {
        (mantissa, scale)
    } else {
        raise_scale(mantissa * 10, scale + 1, places)
    }
}

/// A decimal after `trunc_with_scale(places)`: digits past `places`
/// decimal places dropped toward zero, or a smaller scale raised toward
/// `places` as far as the mantissa fits in 96 bits; the sign is kept.
pub open spec fn truncated(a: AmountView, places: nat) -> AmountView {
    if a.scale >= places {
        AmountView {
            mantissa: trunc_div(a.mantissa as int, pow10((a.scale - places) as nat) as int) as i128,
            scale: places as u32,
            negative: a.negative,
        }
    } else {
        let (m, s) = raise_scale(a.mantissa as int, a.scale as nat, places);
        AmountView { mantissa: m as i128, scale: s as u32, negative: a.negative }
    }
}

/// The amount `Decimal::new(mantissa, scale)` kept to four decimal places.
pub open spec fn spec_from_decimal_parts(mantissa: i128, scale: u32) -> AmountView {
    truncated(AmountView { mantissa, scale, negative: mantissa < 0 }, AMOUNT_SCALE as nat)
}

/// What `Decimal::checked_add` gives for `a + b`, or `None` where the sum
/// overflows.
pub uninterp spec fn decimal_sum(a: AmountView, b: AmountView) -> Option<AmountView>;

/// What `Decimal::checked_sub` gives for `a - b`, or `None` where the
/// difference overflows.
pub uninterp spec fn decimal_difference(a: AmountView, b: AmountView) -> Option<AmountView>;

/// What `<Decimal as FromStr>::from_str` makes of a text, or `None` where
/// it refuses the text.
pub uninterp spec fn decimal_from_str(text: Seq<char>) -> Option<AmountView>;

/// A money amount, held as a decimal is.
#[derive(Clone, Copy, Debug)]
pub struct Amount {
    mantissa: i128,
    scale: u32,
    negative: bool,
}

impl View for Amount {
    type V = AmountView;

    closed spec fn view(&self) -> AmountView {
        AmountView { mantissa: self.mantissa, scale: self.scale, negative: self.negative }
    }
}

/// Amounts are equal when their values are, whatever their scales (as
/// decimals compare).
impl PartialEq for Amount {
    fn eq(&self, other: &Amount) -> (r: bool) {
        !self.less_than(other) && !other.less_than(self)
    }
}

impl PartialEqSpecImpl for Amount {
    open spec fn obeys_eq_spec() -> bool {
        true
    }

    open spec fn eq_spec(&self, other: &Amount) -> bool {
        self@.value() == other@.value()
    }
}

impl Eq for Amount {

}

impl Amount {
    #[verifier::type_invariant]
    spec fn inv(self) -> bool {
        self@.wf()
    }

    fn from_view(v: (i128, u32, bool)) -> (r: Amount)
        requires
            (AmountView { mantissa: v.0, scale: v.1, negative: v.2 }).wf(),
        ensures
            r@ == (AmountView { mantissa: v.0, scale: v.1, negative: v.2 }),
    {
        Amount { mantissa: v.0, scale: v.1, negative: v.2 }
    }

    /// Zero with no decimal places (`Decimal::ZERO`).
    pub fn zero() -> (r: Amount)
        ensures
            r@ == AmountView::zero(),
    {
        Amount { mantissa: 0, scale: 0, negative: false }
    }

    /// The signed mantissa: the value times `10^scale()`.
    pub fn mantissa(&self) -> (r: i128)
        ensures
            r == self@.mantissa,
            self@.wf(),
    {
        proof {
            use_type_invariant(self);
        }
        self.mantissa
    }

    /// The number of decimal places.
    pub fn scale(&self) -> (r: u32)
        ensures
            r == self@.scale,
            self@.wf(),
    {
        proof {
            use_type_invariant(self);
        }
        self.scale
    }

    /// Whether the sign is negative (also for a negative zero).
    pub fn is_sign_negative(&self) -> (r: bool)
        ensures
            r == self@.negative,
            self@.wf(),
    {
        proof {
            use_type_invariant(self);
        }
        self.negative
    }

    /// The amount kept to four decimal places (`trunc_with_scale(4)`).
    pub fn at_four_places(&self) -> (r: Amount)
        ensures
            r@ == truncated(self@, AMOUNT_SCALE as nat),
            r@.wf(),
            self@.wf(),
    {
        proof {
            use_type_invariant(self);
        }
        Amount::from_view(
            decimal_trunc_with_scale((self.mantissa, self.scale, self.negative), AMOUNT_SCALE),
        )
    }

    /// `self < other` by value.
    pub fn less_than(&self, other: &Amount) -> (r: bool)
        ensures
            r == (self@.value() < other@.value()),
    {
        proof {
            use_type_invariant(self);
            use_type_invariant(other);
        }
        decimal_less((self.mantissa, self.scale, self.negative), (other.mantissa, other.scale, other.negative))
    }

    /// `self + other`, as `Decimal::checked_add` computes it; `None` where it
    /// overflows.
    pub fn checked_add(&self, other: &Amount) -> (r: Option<Amount>)
        ensures
            r matches Some(c) ==> decimal_sum(self@, other@) == Some(c@) && c@.wf(),
            r is None ==> decimal_sum(self@, other@) is None,
            units_in_range(exact_sum_mantissa(self@, other@)) ==> (r matches Some(c) && c@.value()
                == self@.value() + other@.value()),
    {
        proof {
            use_type_invariant(self);
            use_type_invariant(other);
        }
        match decimal_add((self.mantissa, self.scale, self.negative), (other.mantissa, other.scale, other.negative)) {
            Some(v) => Some(Amount::from_view(v)),
            None => None,
        }
    }

    /// `self - other`, as `Decimal::checked_sub` computes it; `None` where it
    /// overflows.
    pub fn checked_sub(&self, other: &Amount) -> (r: Option<Amount>)
        ensures
            r matches Some(c) ==> decimal_difference(self@, other@) == Some(c@) && c@.wf(),
            r is None ==> decimal_difference(self@, other@) is None,
            units_in_range(exact_difference_mantissa(self@, other@)) ==> (r matches Some(c)
                && c@.value() == self@.value() - other@.value()),
    {
        proof {
            use_type_invariant(self);
            use_type_invariant(other);
        }
        match decimal_sub((self.mantissa, self.scale, self.negative), (other.mantissa, other.scale, other.negative)) {
            Some(v) => Some(Amount::from_view(v)),
            None => None,
        }
    }

    /// The decimal `mantissa * 10^-scale` (as `Decimal::new` makes it) kept
    /// to four decimal places: digits past the fourth place dropped toward
    /// zero, or the scale raised to four as far as the mantissa fits.
    pub fn from_decimal_parts(mantissa: i128, scale: u32) -> (r: Amount)
        requires
            units_in_range(mantissa as int),
            scale <= MAX_SCALE,
        ensures
            r@ == spec_from_decimal_parts(mantissa, scale),
            r@.wf(),
    {
        Amount::from_view(decimal_trunc_with_scale((mantissa, scale, mantissa < 0), AMOUNT_SCALE))
    }

    /// Reads a decimal number as written (`"10.00"`, `"-3.5"`, ...) and keeps
    /// it to four decimal places; `None` where the text is not a decimal number.
    pub fn parse(text: &str) -> (r: Option<Amount>)
        ensures
            match decimal_from_str(text@) {
                Some(d) => r matches Some(a) && a@ == truncated(d, AMOUNT_SCALE as nat) && a@.wf(),
                None => r is None,
            },
    {
        match decimal_parse(text) {
            Some(v) => Some(Amount::from_view(decimal_trunc_with_scale(v, AMOUNT_SCALE))),
            None => None,
        }
    }
}

/// The parts `(mantissa, scale, negative)` as an abstract decimal.
pub open spec fn as_view(v: (i128, u32, bool)) -> AmountView {
    AmountView { mantissa: v.0, scale: v.1, negative: v.2 }
}

/// Calls `rust_decimal::Decimal::from_str` and hands back the parts of the
/// result (`mantissa`, `scale`, `is_sign_negative`). Trusted: the result is
/// the named `decimal_from_str` of the text, and is the parts of a decimal.
#[verifier::external_body]
fn decimal_parse(text: &str) -> (r: Option<(i128, u32, bool)>)
    ensures
        r matches Some(v) ==> decimal_from_str(text@) == Some(as_view(v)) && as_view(v).wf(),
        r is None ==> decimal_from_str(text@) is None,
{
    match <Decimal as std::str::FromStr>::from_str(text) {
        Ok(d) => Some((d.mantissa(), d.scale(), d.is_sign_negative())),
        Err(_) => None,
    }
}

/// Calls `rust_decimal::Decimal::trunc_with_scale(places)` on the decimal
/// with parts `v` (`Decimal::from_i128_with_scale`, then
/// `set_sign_negative`) and hands back the parts of the result. Trusted, as
/// the crate's source shows: the result is `truncated(v, places)`.
#[verifier::external_body]
fn decimal_trunc_with_scale(v: (i128, u32, bool), places: u32) -> (r: (i128, u32, bool))
    requires
        as_view(v).wf(),
        places <= MAX_SCALE,
    ensures
        as_view(r) == truncated(as_view(v), places as nat),
        as_view(r).wf(),
{
    let mut d = Decimal::from_i128_with_scale(v.0, v.1);
    d.set_sign_negative(v.2);
    let t = d.trunc_with_scale(places);
    (t.mantissa(), t.scale(), t.is_sign_negative())
}

/// Calls `rust_decimal::Decimal::checked_add` on the decimals with parts
/// `a` and `b`. Trusted: the result is the named `decimal_sum`; it is a
/// decimal; and where the exact sum fits in 96 bits at the larger scale,
/// the sum is exact (the crate lowers the scale, rounding, only where it
/// does not fit, and overflows only when it fits at no scale).
#[verifier::external_body]
fn decimal_add(a: (i128, u32, bool), b: (i128, u32, bool)) -> (r: Option<(i128, u32, bool)>)
    requires
        as_view(a).wf(),
        as_view(b).wf(),
    ensures
        r matches Some(v) ==> decimal_sum(as_view(a), as_view(b)) == Some(as_view(v)),
        r matches Some(v) ==> as_view(v).wf(),
        r is None ==> decimal_sum(as_view(a), as_view(b)) is None,
        r is Some || !units_in_range(exact_sum_mantissa(as_view(a), as_view(b))),
        r matches Some(v) ==> (units_in_range(exact_sum_mantissa(as_view(a), as_view(b))) ==> as_view(v).value() == as_view(a).value() + as_view(b).value()),
{
    let mut x = Decimal::from_i128_with_scale(a.0, a.1);
    x.set_sign_negative(a.2);
    let mut y = Decimal::from_i128_with_scale(b.0, b.1);
    y.set_sign_negative(b.2);
    x.checked_add(y).map(|d| (d.mantissa(), d.scale(), d.is_sign_negative()))
}

/// Calls `rust_decimal::Decimal::checked_sub` on the decimals with parts
/// `a` and `b`. Trusted: the result is the named `decimal_difference`; it
/// is a decimal; and where the exact difference fits in 96 bits at the
/// larger scale, the difference is exact.
#[verifier::external_body]
fn decimal_sub(a: (i128, u32, bool), b: (i128, u32, bool)) -> (r: Option<(i128, u32, bool)>)
    requires
        as_view(a).wf(),
        as_view(b).wf(),
    ensures
        r matches Some(v) ==> decimal_difference(as_view(a), as_view(b)) == Some(as_view(v)),
        r matches Some(v) ==> as_view(v).wf(),
        r is None ==> decimal_difference(as_view(a), as_view(b)) is None,
        r is Some || !units_in_range(exact_difference_mantissa(as_view(a), as_view(b))),
        r matches Some(v) ==> (units_in_range(exact_difference_mantissa(as_view(a), as_view(b))) ==> as_view(v).value() == as_view(a).value() - as_view(b).value()),
{
    let mut x = Decimal::from_i128_with_scale(a.0, a.1);
    x.set_sign_negative(a.2);
    let mut y = Decimal::from_i128_with_scale(b.0, b.1);
    y.set_sign_negative(b.2);
    x.checked_sub(y).map(|d| (d.mantissa(), d.scale(), d.is_sign_negative()))
}

/// Compares the decimals with parts `a` and `b` with `Decimal`'s `<`.
/// Trusted: decimals compare by value (a negative zero equals zero).
#[verifier::external_body]
fn decimal_less(a: (i128, u32, bool), b: (i128, u32, bool)) -> (r: bool)
    requires
        as_view(a).wf(),
        as_view(b).wf(),
    ensures
        r == (as_view(a).value() < as_view(b).value()),
{
    let mut x = Decimal::from_i128_with_scale(a.0, a.1);
    x.set_sign_negative(a.2);
    let mut y = Decimal::from_i128_with_scale(b.0, b.1);
    y.set_sign_negative(b.2);
    x < y
}

} // verus!
