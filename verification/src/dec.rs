//! Exact base-10 numbers.
//!
//! A [`Dec`] carries the value `mantissa / 10^scale` with a mantissa of at
//! most 96 bits and a scale of at most 28 — the representation of a
//! `rust_decimal` value.  Arithmetic that `rust_decimal` performs with
//! internal rounding (addition, multiplication, division, trigonometry) is
//! reached through trusted wrappers; snapping a value to the nearest whole
//! unit is implemented and verified here.

use vstd::arithmetic::div_mod::{
    lemma_fundamental_div_mod, lemma_fundamental_div_mod_converse,
    lemma_mod_division_less_than_divisor,
};
use vstd::prelude::*;

verus! {

/// Largest mantissa magnitude a `Dec` may carry: `2^96 - 1`.
pub const MAX_UNITS: i128 = 79228162514264337593543950335;

/// Largest scale (count of fractional base-10 digits) a `Dec` may carry.
pub const MAX_SCALE: u32 = 28;

/// The mathematical content of a [`Dec`]: the represented value is
/// `m / 10^s`.
pub ghost struct DecV {
    pub m: int,
    pub s: nat,
}

/// Whether a mantissa/scale pair is representable as a `Dec`.
pub open spec fn dec_valid(v: DecV) -> bool {
    v.s <= MAX_SCALE && -MAX_UNITS <= v.m && v.m <= MAX_UNITS
}

/// `10^e`.
pub open spec fn pow10(e: nat) -> nat
    decreases e,
{
    if e == 0 {
        1
    } else {
        10 * pow10((e - 1) as nat)
    }
}

/// An exact base-10 number: the value `mantissa / 10^scale`.
#[derive(Clone, Copy, Debug)]
pub struct Dec {
    mantissa: i128,
    scale: u32,
}

impl View for Dec {
    type V = DecV;

    closed spec fn view(&self) -> DecV {
        DecV { m: self.mantissa as int, s: self.scale as nat }
    }
}

impl Dec {
    #[verifier::type_invariant]
    spec fn inv(self) -> bool {
        dec_valid(self.view())
    }

    /// Builds the number `mantissa / 10^scale`, or `None` when the pair is
    /// outside the representable range.
    pub fn new(mantissa: i128, scale: u32) -> (r: Option<Dec>)
        ensures
            dec_valid(DecV { m: mantissa as int, s: scale as nat }) ==> (r matches Some(d) && d@
                == (DecV { m: mantissa as int, s: scale as nat })),
            !dec_valid(DecV { m: mantissa as int, s: scale as nat }) ==> r is None,
    {
        if scale <= MAX_SCALE && -MAX_UNITS <= mantissa && mantissa <= MAX_UNITS {
            Some(Dec { mantissa, scale })
        } else {
            None
        }
    }

    /// The whole number `v`.
    pub fn from_int(v: i64) -> (r: Dec)
        ensures
            r@ == (DecV { m: v as int, s: 0 }),
    {
        Dec { mantissa: v as i128, scale: 0 }
    }

    /// π to 28 fractional digits, the precision of a `rust_decimal` value;
    /// the same digits as that crate's π constant.
    pub fn pi() -> (r: Dec)
        ensures
            r@ == pi_v(),
    {
        Dec { mantissa: 31415926535897932384626433833, scale: 28 }
    }

    /// The mantissa of the number.
    pub fn mantissa(&self) -> (m: i128)
        ensures
            m as int == self@.m,
    {
        self.mantissa
    }

    /// The scale of the number: its count of fractional base-10 digits.
    pub fn scale(&self) -> (s: u32)
        ensures
            s as nat == self@.s,
    {
        self.scale
    }
}

impl Default for Dec {
    /// Zero.
    fn default() -> (r: Dec)
        ensures
            r@ == (DecV { m: 0, s: 0 }),
    {
        Dec { mantissa: 0, scale: 0 }
    }
}

/// π to 28 fractional digits.
pub open spec fn pi_v() -> DecV {
    DecV { m: 31415926535897932384626433833, s: 28 }
}

/// The nearest integer to `m / p` (for `p >= 1`), ties resolved away from
/// zero: with `p == 10`, `m == 5` gives `1` and `m == -5` gives `-1`.
pub open spec fn round_away(m: int, p: int) -> int {
    if m >= 0 {
        (2 * m + p) / (2 * p)
    } else {
        -((2 * (-m) + p) / (2 * p))
    }
}

/// The whole number nearest to `v`, ties away from zero, at scale 0.
pub open spec fn round_unit_of(v: DecV) -> DecV {
    DecV { m: round_away(v.m, pow10(v.s) as int), s: 0 }
}

/// `pow10` grows with its exponent.
proof fn lemma_pow10_mono(a: nat, b: nat)
    requires
        a <= b,
    ensures
        pow10(a) <= pow10(b),
    decreases b,
{
    if a < b {
        lemma_pow10_mono(a, (b - 1) as nat);
    }
}

/// `10^28` written out.
proof fn lemma_pow10_28()
    ensures
        pow10(28) == 10000000000000000000000000000,
{
    reveal_with_fuel(pow10, 29);
}

/// `10^e` for `e <= 28`.
fn pow10_u128(e: u32) -> (r: u128)
    requires
        e <= MAX_SCALE,
    ensures
        r == pow10(e as nat),
{
    let mut r: u128 = 1;
    let mut i: u32 = 0;
    while i < e
        invariant
            i <= e <= MAX_SCALE,
            r == pow10(i as nat),
        decreases e - i,
    {
        proof {
            lemma_pow10_28();
            lemma_pow10_mono((i + 1) as nat, 28);
            assert(pow10((i + 1) as nat) == 10 * pow10(i as nat));
        }
        r = r * 10;
        i = i + 1;
    }
    r
}

/// Rounding `am / p` to the nearest integer, ties up, agrees with truncating
/// division adjusted by the remainder's half.
proof fn lemma_round_mag(am: int, p: int, q: int, rem: int)
    requires
        1 <= p,
        0 <= am,
        q == am / p,
        rem == am % p,
    ensures
        (2 * am + p) / (2 * p) == if 2 * rem >= p {
            q + 1
        } else {
            q
        },
        (if 2 * rem >= p {
            q + 1
        } else {
            q
        }) <= am,
{
    lemma_fundamental_div_mod(am, p);
    lemma_mod_division_less_than_divisor(am, p);
    assert(am == q * p + rem) by (nonlinear_arith)
        requires
            am == p * q + rem,
    ;
    assert(0 <= q) by (nonlinear_arith)
        requires
            am == q * p + rem,
            0 <= am,
            0 <= rem < p,
            1 <= p,
    ;
    if 2 * rem >= p {
        assert(2 * am + p == (q + 1) * (2 * p) + (2 * rem - p)) by (nonlinear_arith)
            requires
                am == q * p + rem,
        ;
        lemma_fundamental_div_mod_converse(2 * am + p, 2 * p, q + 1, 2 * rem - p);
        assert(q + 1 <= am) by (nonlinear_arith)
            requires
                am == q * p + rem,
                0 <= q,
                0 <= rem < p,
                2 * rem >= p,
                1 <= p,
        ;
    } else {
        assert(2 * am + p == q * (2 * p) + (2 * rem + p)) by (nonlinear_arith)
            requires
                am == q * p + rem,
        ;
        lemma_fundamental_div_mod_converse(2 * am + p, 2 * p, q, 2 * rem + p);
        assert(q <= am) by (nonlinear_arith)
            requires
                am == q * p + rem,
                0 <= q,
                0 <= rem,
                1 <= p,
        ;
    }
}

/// `round_away` picks a nearest integer: the rounded value, brought back to
/// the input's scale, differs from the input by at most half a unit.
pub proof fn lemma_round_away_nearest(m: int, p: int)
    requires
        1 <= p,
    ensures
        2 * (round_away(m, p) * p - m) <= p,
        2 * (m - round_away(m, p) * p) <= p,
{
    let am = if m >= 0 {
        m
    } else {
        -m
    };
    let q = am / p;
    let rem = am % p;
    lemma_fundamental_div_mod(am, p);
    lemma_mod_division_less_than_divisor(am, p);
    lemma_round_mag(am, p, q, rem);
    assert(am == q * p + rem) by (nonlinear_arith)
        requires
            am == p * q + rem,
    ;
    if m >= 0 {
        if 2 * rem >= p {
            assert((q + 1) * p - m == p - rem) by (nonlinear_arith)
                requires
                    m == q * p + rem,
            ;
        } else {
            assert(m - q * p == rem) by (nonlinear_arith)
                requires
                    m == q * p + rem,
            ;
        }
    } else {
        if 2 * rem >= p {
            assert(m - (-(q + 1)) * p == p - rem) by (nonlinear_arith)
                requires
                    -m == q * p + rem,
            ;
        } else {
            assert((-q) * p - m == rem) by (nonlinear_arith)
                requires
                    -m == q * p + rem,
            ;
        }
    }
}

/// Rounding at scale 0 changes nothing.
pub proof fn lemma_round_unit_scale0(v: DecV)
    requires
        v.s == 0,
    ensures
        round_unit_of(v) == v,
{
    if v.m >= 0 {
        lemma_fundamental_div_mod_converse(2 * v.m + 1, 2, v.m, 1);
    } else {
        lemma_fundamental_div_mod_converse(2 * (-v.m) + 1, 2, -v.m, 1);
    }
}

impl Dec {
    /// The whole number nearest to `self`, ties resolved away from zero:
    /// `0.5` becomes `1` and `-0.5` becomes `-1`.  The result has scale 0.
    pub fn round_unit(self) -> (r: Dec)
        ensures
            r@ == round_unit_of(self@),
    {
        proof {
            use_type_invariant(&self);
        }
        if self.scale == 0 {
            proof {
                lemma_round_unit_scale0(self@);
            }
            return self;
        }
        let p: u128 = pow10_u128(self.scale);
        proof {
            lemma_pow10_28();
            lemma_pow10_mono(1, self.scale as nat);
            lemma_pow10_mono(self.scale as nat, 28);
            assert(pow10(0) == 1);
            assert(pow10(1) == 10);
        }
        let neg: bool = self.mantissa < 0;
        let am: u128 = if neg {
            (-self.mantissa) as u128
        } else {
            self.mantissa as u128
        };
        let q: u128 = am / p;
        let rem: u128 = am % p;
        let mag: u128 = if 2 * rem >= p {
            q + 1
        } else {
            q
        };
        proof {
            lemma_round_mag(am as int, p as int, q as int, rem as int);
        }
        let m2: i128 = if neg {
            -(mag as i128)
        } else {
            mag as i128
        };
        Dec { mantissa: m2, scale: 0 }
    }
}

/// Overflow of the representable decimal range, the engine's only failure
/// condition.
#[derive(Clone, Copy, Debug, PartialEq, Eq, Structural)]
pub struct NumericOverflow;

/// The mathematical content of an optional number.
pub open spec fn opt_view(o: Option<Dec>) -> Option<DecV> {
    match o {
        Some(d) => Some(d@),
        None => None,
    }
}

/// What `rust_decimal`'s `checked_add` returns: the sum, rounded to the
/// representable range by that crate's rules, or `None` on overflow.
pub uninterp spec fn add_of(a: DecV, b: DecV) -> Option<DecV>;

/// What `rust_decimal`'s `checked_mul` returns: the product, rounded to the
/// representable range by that crate's rules, or `None` on overflow.
pub uninterp spec fn mul_of(a: DecV, b: DecV) -> Option<DecV>;

/// What `rust_decimal`'s `checked_div` returns: the quotient, rounded to the
/// representable range by that crate's rules, or `None` on division by zero
/// or overflow.
pub uninterp spec fn div_of(a: DecV, b: DecV) -> Option<DecV>;

/// What `rust_decimal`'s `checked_sin` returns: the sine of a value read as
/// radians, to that crate's working precision, or `None` when an internal
/// step overflows.
pub uninterp spec fn sin_of(a: DecV) -> Option<DecV>;

/// What `rust_decimal`'s `checked_cos` returns: the cosine of a value read
/// as radians, to that crate's working precision, or `None` when an internal
/// step overflows.
pub uninterp spec fn cos_of(a: DecV) -> Option<DecV>;

impl Dec {
    /// Relies on `rust_decimal::Decimal::checked_add`, a function of its two
    /// arguments alone; its source returns the right operand unchanged when
    /// the left is zero, and the left operand unchanged otherwise when the
    /// right is zero.
    #[verifier::external_body]
    pub(crate) fn checked_add(self, other: Dec) -> (r: Option<Dec>)
        ensures
            opt_view(r) == add_of(self@, other@),
            self@.m == 0 ==> opt_view(r) == Some(other@),
            self@.m != 0 && other@.m == 0 ==> opt_view(r) == Some(self@),
    {
        let a = rust_decimal::Decimal::from_i128_with_scale(self.mantissa, self.scale);
        let b = rust_decimal::Decimal::from_i128_with_scale(other.mantissa, other.scale);
        match a.checked_add(b) {
            Some(v) => Some(Dec { mantissa: v.mantissa(), scale: v.scale() }),
            None => None,
        }
    }

    /// Relies on `rust_decimal::Decimal::checked_mul`, a function of its two
    /// arguments alone; its source returns zero at scale 0 when either
    /// operand is zero.
    #[verifier::external_body]
    pub(crate) fn checked_mul(self, other: Dec) -> (r: Option<Dec>)
        ensures
            opt_view(r) == mul_of(self@, other@),
            self@.m == 0 || other@.m == 0 ==> opt_view(r) == Some(DecV { m: 0, s: 0 }),
    {
        let a = rust_decimal::Decimal::from_i128_with_scale(self.mantissa, self.scale);
        let b = rust_decimal::Decimal::from_i128_with_scale(other.mantissa, other.scale);
        match a.checked_mul(b) {
            Some(v) => Some(Dec { mantissa: v.mantissa(), scale: v.scale() }),
            None => None,
        }
    }

    /// Relies on `rust_decimal::Decimal::checked_div`, a function of its two
    /// arguments alone; its source returns `None` on a zero divisor and zero
    /// at scale 0 on a zero dividend.
    #[verifier::external_body]
    pub(crate) fn checked_div(self, other: Dec) -> (r: Option<Dec>)
        ensures
            opt_view(r) == div_of(self@, other@),
            other@.m == 0 ==> opt_view(r) is None,
            self@.m == 0 && other@.m != 0 ==> opt_view(r) == Some(DecV { m: 0, s: 0 }),
    {
        let a = rust_decimal::Decimal::from_i128_with_scale(self.mantissa, self.scale);
        let b = rust_decimal::Decimal::from_i128_with_scale(other.mantissa, other.scale);
        match a.checked_div(b) {
            Some(v) => Some(Dec { mantissa: v.mantissa(), scale: v.scale() }),
            None => None,
        }
    }

    /// Relies on `rust_decimal::MathematicalOps::checked_sin`, a function of
    /// its argument alone; its source returns zero at scale 0 for a zero
    /// argument.
    #[verifier::external_body]
    pub(crate) fn checked_sin(self) -> (r: Option<Dec>)
        ensures
            opt_view(r) == sin_of(self@),
            self@.m == 0 ==> opt_view(r) == Some(DecV { m: 0, s: 0 }),
    {
        let a = rust_decimal::Decimal::from_i128_with_scale(self.mantissa, self.scale);
        match rust_decimal::MathematicalOps::checked_sin(&a) {
            Some(v) => Some(Dec { mantissa: v.mantissa(), scale: v.scale() }),
            None => None,
        }
    }

    /// Relies on `rust_decimal::MathematicalOps::checked_cos`, a function of
    /// its argument alone; its source returns one at scale 0 for a zero
    /// argument.
    #[verifier::external_body]
    pub(crate) fn checked_cos(self) -> (r: Option<Dec>)
        ensures
            opt_view(r) == cos_of(self@),
            self@.m == 0 ==> opt_view(r) == Some(DecV { m: 1, s: 0 }),
    {
        let a = rust_decimal::Decimal::from_i128_with_scale(self.mantissa, self.scale);
        match rust_decimal::MathematicalOps::checked_cos(&a) {
            Some(v) => Some(Dec { mantissa: v.mantissa(), scale: v.scale() }),
            None => None,
        }
    }
}

} // verus!
