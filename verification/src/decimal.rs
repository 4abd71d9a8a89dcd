//! Fixed-point decimal numbers.
//!
//! `Dec` holds, as plain integers, what a `rust_decimal::Decimal` holds: a
//! mantissa `m` with `|m| < 2^96` and a scale `e` in `0..=28`, standing for
//! the number `m / 10^e`. All arithmetic is done by `rust_decimal` itself,
//! through the trusted items of this module.
use rust_decimal::Decimal;
use vstd::prelude::*;

verus! {

/// `10^n`.
pub open spec fn pow10(n: nat) -> int
    decreases n,
{
    if n == 0 {
        1
    } else {
        10 * pow10((n - 1) as nat)
    }
}

/// The largest mantissa a decimal can hold, `2^96 - 1`.
pub open spec fn max_mantissa() -> int {
    79228162514264337593543950335
}

/// The largest scale a decimal can have.
pub open spec fn max_scale() -> nat {
    28
}

/// A decimal number `mantissa / 10^scale`.
#[derive(Clone, Copy, Debug)]
pub struct Dec {
    mantissa: i128,
    scale: u32,
}

impl Dec {
    #[verifier::type_invariant]
    spec fn inv(self) -> bool {
        &&& self.scale <= 28
        &&& -max_mantissa() <= self.mantissa <= max_mantissa()
    }

    /// The mantissa.
    pub closed spec fn mant(self) -> int {
        self.mantissa as int
    }

    /// The scale (number of decimal places).
    pub closed spec fn scl(self) -> nat {
        self.scale as nat
    }

    /// Whether the fields are those of a decimal that `rust_decimal` can hold.
    pub closed spec fn valid(self) -> bool {
        self.inv()
    }

    /// The number, in units of `10^-28`: every decimal is an integer multiple of that unit.
    pub open spec fn value(self) -> int {
        self.mant() * pow10((max_scale() - self.scl()) as nat)
    }

    /// Zero, of scale 0 (`Decimal::ZERO`).
    pub open spec fn spec_zero() -> Dec {
        Dec::spec_new(0, 0)
    }

    /// The decimal with the given mantissa and scale.
    pub closed spec fn spec_new(mantissa: int, scale: nat) -> Dec {
        Dec { mantissa: mantissa as i128, scale: scale as u32 }
    }

    pub proof fn lemma_valid(self)
        requires
            self.valid(),
        ensures
            self.scl() <= max_scale(),
            -max_mantissa() <= self.mant() <= max_mantissa(),
    {
    }

    pub proof fn lemma_spec_new(mantissa: int, scale: nat)
        requires
            scale <= max_scale(),
            -max_mantissa() <= mantissa <= max_mantissa(),
        ensures
            Dec::spec_new(mantissa, scale).mant() == mantissa,
            Dec::spec_new(mantissa, scale).scl() == scale,
            Dec::spec_new(mantissa, scale).valid(),
    {
    }

    /// The mantissa of this decimal.
    pub fn mantissa(&self) -> (r: i128)
        ensures
            r == self.mant(),
    {
        self.mantissa
    }

    /// The scale of this decimal.
    pub fn scale(&self) -> (r: u32)
        ensures
            r == self.scl(),
            r <= 28,
    {
        proof {
            use_type_invariant(self);
        }
        self.scale
    }

    /// `num / 10^scale`, as `Decimal::new` builds it; a scale above 28 is refused there by a panic.
    pub fn new(num: i64, scale: u32) -> (r: Dec)
        requires
            scale <= 28,
        ensures
            r == Dec::spec_new(num as int, scale as nat),
            r.mant() == num,
            r.scl() == scale,
    {
        Dec { mantissa: num as i128, scale }
    }

    /// `num / 10^scale` for a 128-bit mantissa; refused (by a panic) in `Decimal` when the mantissa
    /// does not fit in 96 bits or the scale is above 28.
    pub fn from_i128_with_scale(num: i128, scale: u32) -> (r: Dec)
        requires
            scale <= 28,
            -max_mantissa() <= num <= max_mantissa(),
        ensures
            r == Dec::spec_new(num as int, scale as nat),
            r.mant() == num,
            r.scl() == scale,
    {
        Dec { mantissa: num, scale }
    }

    /// The integer `n` as a decimal of scale 0, as `Decimal::from` gives it.
    pub fn from_int(n: i64) -> (r: Dec)
        ensures
            r == Dec::spec_new(n as int, 0),
            r.mant() == n,
            r.scl() == 0,
    {
        Dec { mantissa: n as i128, scale: 0 }
    }

    /// The count `n` as a decimal of scale 0.
    pub fn from_usize(n: usize) -> (r: Dec)
        ensures
            r == Dec::spec_new(n as int, 0),
            r.mant() == n,
            r.scl() == 0,
    {
        Dec { mantissa: n as i128, scale: 0 }
    }

    /// Zero.
    pub fn zero() -> (r: Dec)
        ensures
            r == Dec::spec_zero(),
            r.mant() == 0,
            r.scl() == 0,
            r.value() == 0,
    {
        proof {
            vstd::arithmetic::mul::lemma_mul_basics(pow10(28));
        }
        Dec { mantissa: 0, scale: 0 }
    }

    /// One.
    pub fn one() -> (r: Dec)
        ensures
            r.mant() == 1,
            r.scl() == 0,
            r.value() == pow10(28),
    {
        proof {
            vstd::arithmetic::mul::lemma_mul_basics(pow10(28));
        }
        Dec { mantissa: 1, scale: 0 }
    }
}


/// The magnitude of the number, in units of `10^-28`.
pub open spec fn abs_value(d: Dec) -> int {
    if d.value() < 0 {
        -d.value()
    } else {
        d.value()
    }
}

/// Whether a mantissa fits in 64 bits (sign aside).
pub open spec fn fits_64(m: int) -> bool {
    -18446744073709551615 <= m <= 18446744073709551615
}

/// The mantissa of `a + b` when both are brought to the larger of their two scales.
pub open spec fn aligned_sum(a: Dec, b: Dec) -> int {
    let s = if a.scl() >= b.scl() { a.scl() } else { b.scl() };
    a.mant() * pow10((s - a.scl()) as nat) + b.mant() * pow10((s - b.scl()) as nat)
}

/// The mantissa of `a - b` when both are brought to the larger of their two scales.
pub open spec fn aligned_difference(a: Dec, b: Dec) -> int {
    let s = if a.scl() >= b.scl() { a.scl() } else { b.scl() };
    a.mant() * pow10((s - a.scl()) as nat) - b.mant() * pow10((s - b.scl()) as nat)
}

/// The scales of `a` and `b` differ by at most 19.
pub open spec fn scales_close(a: Dec, b: Dec) -> bool {
    -19 <= a.scl() - b.scl() <= 19
}

/// What `Decimal::checked_add` returns on the two decimals.
pub uninterp spec fn decimal_checked_add(a: Dec, b: Dec) -> Option<Dec>;

/// What `Decimal::checked_sub` returns on the two decimals.
pub uninterp spec fn decimal_checked_sub(a: Dec, b: Dec) -> Option<Dec>;

/// What `Decimal::checked_mul` returns on the two decimals.
pub uninterp spec fn decimal_checked_mul(a: Dec, b: Dec) -> Option<Dec>;

/// What `Decimal::checked_div` returns on the two decimals.
pub uninterp spec fn decimal_checked_div(a: Dec, b: Dec) -> Option<Dec>;

/// The text that `Decimal`'s `Display` writes for the decimal.
pub uninterp spec fn decimal_display(d: Dec) -> Seq<char>;

/// The value of the whole number `n` (values count units of `10^-28`).
pub open spec fn units(n: int) -> int {
    n * Dec::spec_new(1, 0).value()
}

/// A whole number's value is its multiple of `10^28`, the value of 1.
pub proof fn lemma_units(n: int)
    ensures
        units(1) == pow10(28),
        units(1) > 0,
        units(n) == n * pow10(28),
        units(n) == n * units(1),
{
    Dec::lemma_spec_new(1, 0);
    lemma_pow10_pos(28);
}

/// Whether `z` keeps every whole-number bound of the exact result `num / den` (`den > 0`): when
/// the exact result is at least (at most) a whole number, so is `z`. Rounding to the nearest
/// value at some scale never crosses a whole number, which every scale can represent.
pub open spec fn keeps_whole_bounds(num: int, den: int, z: Dec) -> bool {
    forall|n: int|
        #![trigger units(n)]
        (num >= units(n) * den ==> z.value() >= units(n)) && (num <= units(n) * den ==> z.value() <= units(n))
}

/// Calls `Decimal::checked_add`. Claimed: the result is the named value; when both mantissas fit
/// in 64 bits, the scales differ by at most 19 and the sum, brought to the larger scale, fits in
/// 96 bits, it is `Some` and exact (the 64-bit path of `add_impl` computes it without rounding);
/// a result keeps every whole-number bound of the exact sum (`add_impl` rounds only to the
/// nearest value at a smaller scale).
#[verifier::external_body]
fn call_checked_add(a: Dec, b: Dec) -> (r: Option<Dec>)
    ensures
        r == decimal_checked_add(a, b),
        fits_64(a.mant()) && fits_64(b.mant()) && scales_close(a, b) && -max_mantissa()
            <= aligned_sum(a, b) <= max_mantissa() ==> r is Some && r->0.value() == a.value()
            + b.value(),
        r matches Some(z) ==> keeps_whole_bounds(a.value() + b.value(), 1, z),
{
    let x = Decimal::from_i128_with_scale(a.mantissa, a.scale);
    let y = Decimal::from_i128_with_scale(b.mantissa, b.scale);
    match x.checked_add(y) {
        Some(z) => Some(Dec { mantissa: z.mantissa(), scale: z.scale() }),
        None => None,
    }
}

/// Calls `Decimal::checked_sub`. Claimed: the result is the named value; under the same
/// conditions as for addition, on the difference, it is `Some` and exact; a result keeps every
/// whole-number bound of the exact difference.
#[verifier::external_body]
fn call_checked_sub(a: Dec, b: Dec) -> (r: Option<Dec>)
    ensures
        r == decimal_checked_sub(a, b),
        fits_64(a.mant()) && fits_64(b.mant()) && scales_close(a, b) && -max_mantissa()
            <= aligned_difference(a, b) <= max_mantissa() ==> r is Some && r->0.value()
            == a.value() - b.value(),
        r matches Some(z) ==> keeps_whole_bounds(a.value() - b.value(), 1, z),
{
    let x = Decimal::from_i128_with_scale(a.mantissa, a.scale);
    let y = Decimal::from_i128_with_scale(b.mantissa, b.scale);
    match x.checked_sub(y) {
        Some(z) => Some(Dec { mantissa: z.mantissa(), scale: z.scale() }),
        None => None,
    }
}

/// Calls `Decimal::checked_mul`. Claimed: the result is the named value; when the scales add up
/// to at most 28 and the product of the mantissas fits in 96 bits, it is `Some` and exact
/// (`mul_impl` only rounds a product that is wider than 96 bits or has too large a scale, and
/// then to the nearest value at a smaller scale, so a result keeps every whole-number bound of
/// the exact product).
#[verifier::external_body]
fn call_checked_mul(a: Dec, b: Dec) -> (r: Option<Dec>)
    ensures
        r == decimal_checked_mul(a, b),
        a.scl() + b.scl() <= max_scale() && -max_mantissa() <= a.mant() * b.mant()
            <= max_mantissa() ==> r is Some && r->0.value() == a.mant() * b.mant() * pow10(
            (max_scale() - a.scl() - b.scl()) as nat,
        ),
        r matches Some(z) ==> keeps_whole_bounds(a.value() * b.value(), units(1), z),
{
    let x = Decimal::from_i128_with_scale(a.mantissa, a.scale);
    let y = Decimal::from_i128_with_scale(b.mantissa, b.scale);
    match x.checked_mul(y) {
        Some(z) => Some(Dec { mantissa: z.mantissa(), scale: z.scale() }),
        None => None,
    }
}

/// Calls `Decimal::checked_div`. Claimed: the result is the named value; it is `None` for a zero
/// divisor, zero for a zero dividend and a non-zero divisor, and `Some` whenever the dividend is
/// not larger than the divisor in magnitude, the quotient then being at most 1 in magnitude
/// (`div_impl` never reports such a quotient as an overflow, and its rounding of the last digit
/// cannot carry a quotient below 1 past 1). That rounding goes to the nearest value at the
/// result's scale, so a result keeps every whole-number bound of the exact quotient.
#[verifier::external_body]
fn call_checked_div(a: Dec, b: Dec) -> (r: Option<Dec>)
    ensures
        r == decimal_checked_div(a, b),
        b.mant() == 0 ==> r is None,
        a.mant() == 0 && b.mant() != 0 ==> r is Some && r->0.value() == 0,
        b.mant() != 0 && abs_value(a) <= abs_value(b) ==> r is Some && abs_value(r->0) <= Dec::spec_new(1, 0).value(),
        b.value() > 0 && r is Some ==> keeps_whole_bounds(a.value() * units(1), b.value(), r->0),
        b.value() < 0 && r is Some ==> keeps_whole_bounds(-a.value() * units(1), -b.value(), r->0),
{
    let x = Decimal::from_i128_with_scale(a.mantissa, a.scale);
    let y = Decimal::from_i128_with_scale(b.mantissa, b.scale);
    match x.checked_div(y) {
        Some(z) => Some(Dec { mantissa: z.mantissa(), scale: z.scale() }),
        None => None,
    }
}

/// Calls `<Decimal as PartialOrd>::lt`. Claimed: it compares the numbers the decimals stand for.
#[verifier::external_body]
fn call_lt(a: Dec, b: Dec) -> (r: bool)
    ensures
        r == (a.value() < b.value()),
{
    let x = Decimal::from_i128_with_scale(a.mantissa, a.scale);
    let y = Decimal::from_i128_with_scale(b.mantissa, b.scale);
    x < y
}

/// Calls `<Decimal as PartialEq>::eq`. Claimed: it compares the numbers the decimals stand for,
/// whatever their scales.
#[verifier::external_body]
fn call_eq(a: Dec, b: Dec) -> (r: bool)
    ensures
        r == (a.value() == b.value()),
{
    let x = Decimal::from_i128_with_scale(a.mantissa, a.scale);
    let y = Decimal::from_i128_with_scale(b.mantissa, b.scale);
    x == y
}

/// The text that `Decimal`'s `Display` writes for the decimal with `places` decimal places
/// (`format!("{:.N}", d)`).
pub uninterp spec fn decimal_display_fixed(d: Dec, places: nat) -> Seq<char>;

/// Calls `Decimal`'s `Display` with a precision. Claimed: the text is the named value.
#[verifier::external_body]
fn call_to_string_fixed(d: Dec, places: usize) -> (r: String)
    ensures
        r@ == decimal_display_fixed(d, places as nat),
{
    format!("{:.*}", places, Decimal::from_i128_with_scale(d.mantissa, d.scale))
}

/// Calls `Decimal`'s `to_string` (its `Display`). Claimed: the text is the named value.
#[verifier::external_body]
fn call_to_string(d: Dec) -> (r: String)
    ensures
        r@ == decimal_display(d),
{
    Decimal::from_i128_with_scale(d.mantissa, d.scale).to_string()
}

/// The decimal with the mantissa's sign dropped (`Decimal::abs`).
pub open spec fn abs_of(d: Dec) -> Dec {
    Dec::spec_new(if d.mant() < 0 { -d.mant() } else { d.mant() }, d.scl())
}

/// The decimal with the mantissa negated (`-d`).
pub open spec fn neg_of(d: Dec) -> Dec {
    Dec::spec_new(-d.mant(), d.scl())
}

/// What `Decimal::from_str` gives for the text.
pub uninterp spec fn decimal_from_text(s: Seq<char>) -> Option<Dec>;

/// Calls `Decimal::from_str`. Claimed: the result is the named value.
#[verifier::external_body]
fn call_from_str(s: &str) -> (r: Option<Dec>)
    ensures
        r == decimal_from_text(s@),
{
    match <Decimal as core::str::FromStr>::from_str(s) {
        Ok(z) => Some(Dec { mantissa: z.mantissa(), scale: z.scale() }),
        Err(_) => None,
    }
}

/// The integer part of a non-negative decimal (the mantissa divided by `10^scale`, rounded
/// down).
pub open spec fn whole_part(d: Dec) -> int {
    d.mant() / pow10(d.scl())
}

/// Calls `ToPrimitive::to_usize` on the decimal. Claimed, from `to_u64` in the crate's
/// source: `None` for a negative number; else the integer part (`trunc`), `None` when that does
/// not fit.
#[verifier::external_body]
fn call_to_usize(d: Dec) -> (r: Option<usize>)
    ensures
        d.mant() < 0 ==> r is None,
        d.mant() >= 0 && whole_part(d) <= usize::MAX ==> r == Some(whole_part(d) as usize),
        d.mant() >= 0 && whole_part(d) > usize::MAX ==> r is None,
{
    rust_decimal::prelude::ToPrimitive::to_usize(&Decimal::from_i128_with_scale(d.mantissa, d.scale))
}

impl Dec {
    /// The integer part as a `usize`; `None` for a negative number or one too large.
    pub fn to_usize(&self) -> (r: Option<usize>)
        ensures
            self.mant() < 0 ==> r is None,
            self.mant() >= 0 && whole_part(*self) <= usize::MAX ==> r == Some(whole_part(*self) as usize),
            self.mant() >= 0 && whole_part(*self) > usize::MAX ==> r is None,
    {
        call_to_usize(*self)
    }
}

/// `a + b` is defined (does not overflow).
pub open spec fn can_add(a: Dec, b: Dec) -> bool {
    decimal_checked_add(a, b) is Some
}

/// `a - b` is defined.
pub open spec fn can_sub(a: Dec, b: Dec) -> bool {
    decimal_checked_sub(a, b) is Some
}

/// `a * b` is defined.
pub open spec fn can_mul(a: Dec, b: Dec) -> bool {
    decimal_checked_mul(a, b) is Some
}

/// `a / b` is defined (a non-zero divisor and no overflow).
pub open spec fn can_div(a: Dec, b: Dec) -> bool {
    decimal_checked_div(a, b) is Some
}

/// `a + b`, where defined.
pub open spec fn sum(a: Dec, b: Dec) -> Dec {
    decimal_checked_add(a, b)->0
}

/// `a - b`, where defined.
pub open spec fn difference(a: Dec, b: Dec) -> Dec {
    decimal_checked_sub(a, b)->0
}

/// `a * b`, where defined.
pub open spec fn product(a: Dec, b: Dec) -> Dec {
    decimal_checked_mul(a, b)->0
}

/// `a / b`, where defined.
pub open spec fn quotient(a: Dec, b: Dec) -> Dec {
    decimal_checked_div(a, b)->0
}

/// The larger of the two, as `Decimal::max` picks it: `b` when `a < b`, else `a`.
pub open spec fn max_of(a: Dec, b: Dec) -> Dec {
    if a.value() < b.value() {
        b
    } else {
        a
    }
}

/// The smaller of the two, as `Decimal::min` picks it: `b` when `a > b`, else `a`.
pub open spec fn min_of(a: Dec, b: Dec) -> Dec {
    if a.value() > b.value() {
        b
    } else {
        a
    }
}

impl Dec {
    /// `self + other`, or `None` on overflow.
    pub fn checked_add(self, other: Dec) -> (r: Option<Dec>)
        ensures
            r == decimal_checked_add(self, other),
            fits_64(self.mant()) && fits_64(other.mant()) && scales_close(self, other) && -max_mantissa()
                <= aligned_sum(self, other) <= max_mantissa() ==> r is Some && r->0.value()
                == self.value() + other.value(),
            r matches Some(z) ==> keeps_whole_bounds(self.value() + other.value(), 1, z),
    {
        call_checked_add(self, other)
    }

    /// `self - other`, or `None` on overflow.
    pub fn checked_sub(self, other: Dec) -> (r: Option<Dec>)
        ensures
            r == decimal_checked_sub(self, other),
            fits_64(self.mant()) && fits_64(other.mant()) && scales_close(self, other) && -max_mantissa()
                <= aligned_difference(self, other) <= max_mantissa() ==> r is Some && r->0.value()
                == self.value() - other.value(),
            r matches Some(z) ==> keeps_whole_bounds(self.value() - other.value(), 1, z),
    {
        call_checked_sub(self, other)
    }

    /// `self * other`, or `None` on overflow.
    pub fn checked_mul(self, other: Dec) -> (r: Option<Dec>)
        ensures
            r == decimal_checked_mul(self, other),
            self.scl() + other.scl() <= max_scale() && -max_mantissa() <= self.mant() * other.mant()
                <= max_mantissa() ==> r is Some && r->0.value() == self.mant() * other.mant()
                * pow10((max_scale() - self.scl() - other.scl()) as nat),
            r matches Some(z) ==> keeps_whole_bounds(self.value() * other.value(), units(1), z),
    {
        call_checked_mul(self, other)
    }

    /// `self / other`, or `None` for a zero divisor or on overflow.
    pub fn checked_div(self, other: Dec) -> (r: Option<Dec>)
        ensures
            r == decimal_checked_div(self, other),
            other.mant() == 0 ==> r is None,
            self.mant() == 0 && other.mant() != 0 ==> r is Some && r->0.value() == 0,
            other.mant() != 0 && abs_value(self) <= abs_value(other) ==> r is Some && abs_value(r->0)
                <= Dec::spec_new(1, 0).value(),
            other.value() > 0 && r is Some ==> keeps_whole_bounds(self.value() * units(1), other.value(), r->0),
            other.value() < 0 && r is Some ==> keeps_whole_bounds(-self.value() * units(1), -other.value(), r->0),
    {
        call_checked_div(self, other)
    }

    /// `self + other`; `Decimal`'s `+` panics where this is not defined.
    pub fn add(self, other: Dec) -> (r: Dec)
        requires
            can_add(self, other),
        ensures
            r == sum(self, other),
    {
        match call_checked_add(self, other) {
            Some(r) => r,
            None => vstd::pervasive::unreached(),
        }
    }

    /// `self - other`; `Decimal`'s `-` panics where this is not defined.
    pub fn sub(self, other: Dec) -> (r: Dec)
        requires
            can_sub(self, other),
        ensures
            r == difference(self, other),
    {
        match call_checked_sub(self, other) {
            Some(r) => r,
            None => vstd::pervasive::unreached(),
        }
    }

    /// `self * other`; `Decimal`'s `*` panics where this is not defined.
    pub fn mul(self, other: Dec) -> (r: Dec)
        requires
            can_mul(self, other),
        ensures
            r == product(self, other),
    {
        match call_checked_mul(self, other) {
            Some(r) => r,
            None => vstd::pervasive::unreached(),
        }
    }

    /// `self / other`; `Decimal`'s `/` panics where this is not defined.
    pub fn div(self, other: Dec) -> (r: Dec)
        requires
            can_div(self, other),
        ensures
            r == quotient(self, other),
    {
        match call_checked_div(self, other) {
            Some(r) => r,
            None => vstd::pervasive::unreached(),
        }
    }

    /// `self < other`.
    pub fn lt(&self, other: &Dec) -> (r: bool)
        ensures
            r == (self.value() < other.value()),
    {
        call_lt(*self, *other)
    }

    /// `self > other`.
    pub fn gt(&self, other: &Dec) -> (r: bool)
        ensures
            r == (self.value() > other.value()),
    {
        call_lt(*other, *self)
    }

    /// `self <= other`.
    pub fn le(&self, other: &Dec) -> (r: bool)
        ensures
            r == (self.value() <= other.value()),
    {
        !call_lt(*other, *self)
    }

    /// `self >= other`.
    pub fn ge(&self, other: &Dec) -> (r: bool)
        ensures
            r == (self.value() >= other.value()),
    {
        !call_lt(*self, *other)
    }

    /// Numeric equality, whatever the scales.
    pub fn eq_value(&self, other: &Dec) -> (r: bool)
        ensures
            r == (self.value() == other.value()),
    {
        call_eq(*self, *other)
    }

    /// Whether this is zero.
    pub fn is_zero(&self) -> (r: bool)
        ensures
            r == (self.mant() == 0),
            r == (self.value() == 0),
    {
        proof {
            use_type_invariant(self);
            lemma_pow10_pos((max_scale() - self.scl()) as nat);
            vstd::arithmetic::mul::lemma_mul_nonzero(self.mant(), pow10((max_scale() - self.scl()) as nat));
        }
        self.mantissa == 0
    }

    /// The larger of the two (`Decimal::max`).
    pub fn max(self, other: Dec) -> (r: Dec)
        ensures
            r == max_of(self, other),
    {
        if self.lt(&other) {
            other
        } else {
            self
        }
    }

    /// The smaller of the two (`Decimal::min`).
    pub fn min(self, other: Dec) -> (r: Dec)
        ensures
            r == min_of(self, other),
    {
        if self.gt(&other) {
            other
        } else {
            self
        }
    }

    /// The absolute value (`Decimal::abs`): the same scale, the mantissa's sign dropped.
    pub fn abs(self) -> (r: Dec)
        ensures
            r == abs_of(self),
            r.mant() == (if self.mant() < 0 { -self.mant() } else { self.mant() }),
            r.scl() == self.scl(),
    {
        proof {
            use_type_invariant(&self);
        }
        if self.mantissa < 0 {
            Dec { mantissa: -self.mantissa, scale: self.scale }
        } else {
            self
        }
    }

    /// The negation (`-x`): the same scale, the mantissa negated.
    pub fn neg(self) -> (r: Dec)
        ensures
            r == neg_of(self),
            r.mant() == -self.mant(),
            r.scl() == self.scl(),
    {
        proof {
            use_type_invariant(&self);
        }
        Dec { mantissa: -self.mantissa, scale: self.scale }
    }

    /// Parses a decimal as `Decimal::from_str` does.
    pub fn parse(s: &str) -> (r: Option<Dec>)
        ensures
            r == decimal_from_text(s@),
    {
        call_from_str(s)
    }

    /// The decimal as `Decimal` writes it with `places` decimal places.
    pub fn to_string_fixed(&self, places: usize) -> (r: String)
        ensures
            r@ == decimal_display_fixed(*self, places as nat),
    {
        call_to_string_fixed(*self, places)
    }

    /// The decimal as `Decimal` writes it.
    pub fn to_string(&self) -> (r: String)
        ensures
            r@ == decimal_display(*self),
    {
        call_to_string(*self)
    }
}

pub proof fn lemma_pow10_pos(n: nat)
    ensures
        pow10(n) > 0,
    decreases n,
{
    if n > 0 {
        lemma_pow10_pos((n - 1) as nat);
    }
}

impl PartialEq for Dec {
    fn eq(&self, other: &Dec) -> (r: bool) {
        call_eq(*self, *other)
    }
}

impl vstd::std_specs::cmp::PartialEqSpecImpl for Dec {
    open spec fn obeys_eq_spec() -> bool {
        true
    }

    open spec fn eq_spec(&self, other: &Dec) -> bool {
        self.value() == other.value()
    }
}


/// The sum of the values, added from the left to zero as `Decimal`'s `Sum` does; `None` when an
/// addition overflows.
pub open spec fn seq_sum(s: Seq<Dec>) -> Option<Dec>
    decreases s.len(),
{
    if s.len() == 0 {
        Some(Dec::spec_zero())
    } else {
        match seq_sum(s.drop_last()) {
            Some(acc) => decimal_checked_add(acc, s.last()),
            None => None,
        }
    }
}

/// Once the whole sum is defined, so is the sum of every prefix.
pub proof fn lemma_seq_sum_prefix_some(s: Seq<Dec>, k: nat)
    requires
        seq_sum(s) is Some,
        k <= s.len(),
    ensures
        seq_sum(s.take(k as int)) is Some,
    decreases s.len(),
{
    if k == s.len() {
        assert(s.take(k as int) =~= s);
    } else {
        lemma_seq_sum_prefix_some(s.drop_last(), k);
        assert(s.drop_last().take(k as int) =~= s.take(k as int));
    }
}

/// The sum of a prefix one longer.
pub proof fn lemma_seq_sum_step(s: Seq<Dec>, k: nat)
    requires
        k < s.len(),
    ensures
        seq_sum(s.take((k + 1) as int)) == match seq_sum(s.take(k as int)) {
            Some(acc) => decimal_checked_add(acc, s[k as int]),
            None => None,
        },
{
    assert(s.take((k + 1) as int).drop_last() =~= s.take(k as int));
}

/// `init` plus the present values of `s`, added from the left (absent values skipped); `None`
/// when an addition overflows.
pub open spec fn fold_add(init: Dec, s: Seq<Option<Dec>>) -> Option<Dec>
    decreases s.len(),
{
    if s.len() == 0 {
        Some(init)
    } else {
        match fold_add(init, s.drop_last()) {
            Some(acc) => match s.last() {
                Some(x) => decimal_checked_add(acc, x),
                None => Some(acc),
            },
            None => None,
        }
    }
}

/// Once the whole fold is defined, so is the fold of every prefix.
pub proof fn lemma_fold_add_prefix_some(init: Dec, s: Seq<Option<Dec>>, k: nat)
    requires
        fold_add(init, s) is Some,
        k <= s.len(),
    ensures
        fold_add(init, s.take(k as int)) is Some,
    decreases s.len(),
{
    if k == s.len() {
        assert(s.take(k as int) =~= s);
    } else {
        lemma_fold_add_prefix_some(init, s.drop_last(), k);
        assert(s.drop_last().take(k as int) =~= s.take(k as int));
    }
}

/// The fold of a prefix one longer.
pub proof fn lemma_fold_add_step(init: Dec, s: Seq<Option<Dec>>, k: nat)
    requires
        k < s.len(),
    ensures
        fold_add(init, s.take((k + 1) as int)) == match fold_add(init, s.take(k as int)) {
            Some(acc) => match s[k as int] {
                Some(x) => decimal_checked_add(acc, x),
                None => Some(acc),
            },
            None => None,
        },
{
    assert(s.take((k + 1) as int).drop_last() =~= s.take(k as int));
}

/// Once a prefix sum overflows, so does every longer one.
pub proof fn lemma_seq_sum_prefix_none(s: Seq<Dec>, k: nat)
    requires
        k <= s.len(),
        seq_sum(s.take(k as int)) is None,
    ensures
        seq_sum(s) is None,
    decreases s.len() - k,
{
    if k < s.len() {
        lemma_seq_sum_step(s, k);
        lemma_seq_sum_prefix_none(s, k + 1);
    } else {
        assert(s.take(k as int) =~= s);
    }
}

impl Dec {
    /// The sum of the values, or `None` where an addition overflows.
    pub fn try_sum_slice(xs: &[Dec]) -> (r: Option<Dec>)
        ensures
            r == seq_sum(xs@),
    {
        let mut acc = Dec::zero();
        let mut i: usize = 0;
        while i < xs.len()
            invariant
                i <= xs@.len(),
                seq_sum(xs@.take(i as int)) == Some(acc),
            decreases xs@.len() - i,
        {
            proof {
                lemma_seq_sum_step(xs@, i as nat);
            }
            match acc.checked_add(xs[i]) {
                Some(v) => {
                    acc = v;
                },
                None => {
                    proof {
                        lemma_seq_sum_prefix_none(xs@, (i + 1) as nat);
                    }
                    return None;
                },
            }
            i = i + 1;
        }
        proof {
            assert(xs@.take(xs@.len() as int) =~= xs@);
        }
        Some(acc)
    }

    /// The sum of the values, as `Decimal`'s `Sum` computes it; `Decimal` panics where it is not
    /// defined.
    pub fn sum_slice(xs: &[Dec]) -> (r: Dec)
        requires
            seq_sum(xs@) is Some,
        ensures
            r == seq_sum(xs@)->0,
    {
        match Dec::try_sum_slice(xs) {
            Some(v) => v,
            None => vstd::pervasive::unreached(),
        }
    }
}

} // verus!
