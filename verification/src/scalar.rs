//! Checked fixed-point numbers.
//!
//! A [`Scalar`] counts millionths: the raw integer `a` stands for the quantity
//! `a / 1_000_000`. Every operation is exact up to one rounding toward zero and
//! answers `None` when its result has no representation, which is how the rest
//! of the crate meets "not finite".

use vstd::prelude::*;

verus! {

/// Raw units per whole unit.
pub const SCALE: i64 = 1_000_000;

/// Largest magnitude a raw value may have. The range is symmetric, so the
/// negation of a representable value is representable.
pub const MAX_RAW: i64 = 9_223_372_036_854_775_807;

/// A fixed-point quantity, counted in millionths.
#[derive(Clone, Copy, Debug, PartialEq, Eq, Structural)]
pub struct Scalar {
    pub raw: i64,
}

/// Magnitude of an integer.
pub open spec fn magnitude(a: int) -> int {
    if a < 0 {
        -a
    } else {
        a
    }
}

/// Quotient rounded toward zero.
pub open spec fn trunc_div(a: int, b: int) -> int
    recommends
        b != 0,
{
    if (a < 0) == (b < 0) {
        magnitude(a) / magnitude(b)
    } else {
        -(magnitude(a) / magnitude(b))
    }
}

/// Whether a raw value is representable.
pub open spec fn fits(x: int) -> bool {
    -MAX_RAW <= x <= MAX_RAW
}

/// The scalar with raw value `x`, if there is one.
pub open spec fn checked(x: int) -> Option<Scalar> {
    if fits(x) {
        Some(Scalar { raw: x as i64 })
    } else {
        None
    }
}

/// `r` is the integer square root of `n`, rounded down.
pub open spec fn is_floor_sqrt(n: int, r: int) -> bool {
    0 <= r && r * r <= n < (r + 1) * (r + 1)
}

/// Integer square root, rounded down, of a non-negative integer.
pub open spec fn floor_sqrt(n: int) -> int
    recommends
        n >= 0,
{
    choose|r: int| is_floor_sqrt(n, r)
}

/// Squaring is monotone on the non-negative integers.
pub proof fn lemma_square_monotone(a: int, b: int)
    requires
        0 <= a <= b,
    ensures
        a * a <= b * b,
{
    assert(a * a <= b * b) by (nonlinear_arith)
        requires
            0 <= a <= b,
    ;
}

/// A non-negative integer has at most one rounded-down square root.
pub proof fn lemma_floor_sqrt_unique(n: int, r: int)
    requires
        is_floor_sqrt(n, r),
    ensures
        floor_sqrt(n) == r,
{
    let s = floor_sqrt(n);
    assert(is_floor_sqrt(n, s));
    if s < r {
        lemma_square_monotone(s + 1, r);
    } else if r < s {
        lemma_square_monotone(r + 1, s);
    }
}

/// The rounded-down square root never decreases as its argument grows.
pub proof fn lemma_floor_sqrt_monotone(m: int, n: int, r: int, s: int)
    requires
        m <= n,
        is_floor_sqrt(m, r),
        is_floor_sqrt(n, s),
    ensures
        r <= s,
{
    if s < r {
        lemma_square_monotone(s + 1, r);
    }
}

/// Rounding toward zero commutes with negating the dividend.
pub proof fn lemma_trunc_div_odd(a: int, b: int)
    requires
        b != 0,
    ensures
        trunc_div(-a, b) == -trunc_div(a, b),
{
    if a == 0 {
        assert(0int / magnitude(b) == 0) by (nonlinear_arith)
            requires
                magnitude(b) > 0,
        ;
    }
}

/// Every non-negative integer has a rounded-down square root.
pub proof fn lemma_floor_sqrt_exists(n: int)
    requires
        n >= 0,
    ensures
        is_floor_sqrt(n, floor_sqrt(n)),
    decreases n,
{
    if n == 0 {
        assert(is_floor_sqrt(0, 0));
    } else {
        lemma_floor_sqrt_exists(n - 1);
        let r = floor_sqrt(n - 1);
        assert((r + 1) * (r + 1) >= n);
        if (r + 1) * (r + 1) == n {
            assert((r + 2) * (r + 2) > (r + 1) * (r + 1)) by (nonlinear_arith)
                requires
                    r >= 0,
            ;
            assert(is_floor_sqrt(n, r + 1));
        } else {
            assert(is_floor_sqrt(n, r));
        }
    }
}

/// Integer square root of `n`, rounded down.
pub fn isqrt(n: u128) -> (r: u128)
    ensures
        is_floor_sqrt(n as int, r as int),
        r == floor_sqrt(n as int),
        r <= 0xFFFF_FFFF_FFFF_FFFF,
{
    let mut lo: u128 = 0;
    let mut hi: u128 = 0x1_0000_0000_0000_0000;
    assert(hi * hi > n) by (nonlinear_arith)
        requires
            hi == 0x1_0000_0000_0000_0000,
            n <= u128::MAX,
    ;
    while hi - lo > 1
        invariant
            lo < hi <= 0x1_0000_0000_0000_0000,
            lo * lo <= n < hi * hi,
        decreases hi - lo,
    {
        let mid: u128 = lo + (hi - lo) / 2;
        assert(mid * mid <= 0xFFFF_FFFF_FFFF_FFFF * 0xFFFF_FFFF_FFFF_FFFF) by (nonlinear_arith)
            requires
                0 <= mid <= 0xFFFF_FFFF_FFFF_FFFF,
        ;
        if mid * mid <= n {
            lo = mid;
        } else {
            hi = mid;
        }
    }
    proof {
        lemma_floor_sqrt_unique(n as int, lo as int);
    }
    lo
}

/// Magnitude of a raw value, widened so that it always fits.
fn magnitude_of(a: i64) -> (m: u128)
    ensures
        m == magnitude(a as int),
        m <= 0x8000_0000_0000_0000,
{
    if a >= 0 {
        a as u128
    } else if a == i64::MIN {
        0x8000_0000_0000_0000
    } else {
        (-a) as u128
    }
}

/// The scalar with the given sign and magnitude, if it is representable.
fn from_sign_magnitude(negative: bool, m: u128) -> (r: Option<Scalar>)
    ensures
        r == checked(if negative { -(m as int) } else { m as int }),
{
    if m > 9_223_372_036_854_775_807 {
        None
    } else {
        let v: i64 = m as i64;
        if negative {
            Some(Scalar { raw: -v })
        } else {
            Some(Scalar { raw: v })
        }
    }
}

impl View for Scalar {
    type V = int;

    open spec fn view(&self) -> int {
        self.raw as int
    }
}

impl Scalar {
    /// Sum, when representable.
    pub open spec fn spec_add(self, rhs: Scalar) -> Option<Scalar> {
        checked(self@ + rhs@)
    }

    /// Difference, when representable.
    pub open spec fn spec_sub(self, rhs: Scalar) -> Option<Scalar> {
        checked(self@ - rhs@)
    }

    /// Negation, when representable.
    pub open spec fn spec_neg(self) -> Option<Scalar> {
        checked(-self@)
    }

    /// Product, rounded toward zero, when representable.
    pub open spec fn spec_mul(self, rhs: Scalar) -> Option<Scalar> {
        checked(trunc_div(self@ * rhs@, SCALE as int))
    }

    /// Quotient, rounded toward zero, when the divisor is not zero and the
    /// result is representable.
    pub open spec fn spec_div(self, rhs: Scalar) -> Option<Scalar> {
        if rhs@ == 0 {
            None
        } else {
            checked(trunc_div(self@ * SCALE, rhs@))
        }
    }

    /// Square root, rounded down, of a non-negative quantity.
    pub open spec fn spec_sqrt(self) -> Option<Scalar> {
        if self@ < 0 {
            None
        } else {
            checked(floor_sqrt(self@ * SCALE))
        }
    }

    /// The quantity `n` whole units, when representable.
    pub open spec fn spec_from_int(n: int) -> Option<Scalar> {
        checked(n * SCALE)
    }

    /// Zero.
    pub fn zero() -> (r: Scalar)
        ensures
            r@ == 0,
    {
        Scalar { raw: 0 }
    }

    /// The scalar with the given raw value, in millionths.
    pub fn from_raw(raw: i64) -> (r: Scalar)
        ensures
            r@ == raw,
    {
        Scalar { raw }
    }

    /// The scalar that stands for `n` whole units.
    pub fn from_int(n: i64) -> (r: Option<Scalar>)
        ensures
            r == Scalar::spec_from_int(n as int),
    {
        let wide: i128 = (n as i128) * 1_000_000;
        if -9_223_372_036_854_775_807 <= wide && wide <= 9_223_372_036_854_775_807 {
            Some(Scalar { raw: wide as i64 })
        } else {
            None
        }
    }

    /// The raw value, in millionths.
    pub fn raw(self) -> (r: i64)
        ensures
            r == self@,
    {
        self.raw
    }

    /// Whether this quantity is strictly positive.
    pub fn is_positive(self) -> (r: bool)
        ensures
            r == (self@ > 0),
    {
        self.raw > 0
    }

    /// Whether this quantity is strictly less than `rhs`.
    pub fn less_than(self, rhs: Scalar) -> (r: bool)
        ensures
            r == (self@ < rhs@),
    {
        self.raw < rhs.raw
    }

    /// Checked addition.
    pub fn add(self, rhs: Scalar) -> (r: Option<Scalar>)
        ensures
            r == self.spec_add(rhs),
    {
        let wide: i128 = (self.raw as i128) + (rhs.raw as i128);
        if -9_223_372_036_854_775_807 <= wide && wide <= 9_223_372_036_854_775_807 {
            Some(Scalar { raw: wide as i64 })
        } else {
            None
        }
    }

    /// Checked subtraction.
    pub fn sub(self, rhs: Scalar) -> (r: Option<Scalar>)
        ensures
            r == self.spec_sub(rhs),
    {
        let wide: i128 = (self.raw as i128) - (rhs.raw as i128);
        if -9_223_372_036_854_775_807 <= wide && wide <= 9_223_372_036_854_775_807 {
            Some(Scalar { raw: wide as i64 })
        } else {
            None
        }
    }

    /// Checked negation.
    pub fn neg(self) -> (r: Option<Scalar>)
        ensures
            r == self.spec_neg(),
    {
        if self.raw == i64::MIN {
            None
        } else {
            Some(Scalar { raw: -self.raw })
        }
    }

    /// Checked multiplication, rounded toward zero.
    pub fn mul(self, rhs: Scalar) -> (r: Option<Scalar>)
        ensures
            r == self.spec_mul(rhs),
    {
        let ma: u128 = magnitude_of(self.raw);
        let mb: u128 = magnitude_of(rhs.raw);
        proof {
            lemma_product_magnitude(self@, rhs@);
            assert(ma * mb <= 0x8000_0000_0000_0000 * 0x8000_0000_0000_0000) by (nonlinear_arith)
                requires
                    0 <= ma <= 0x8000_0000_0000_0000,
                    0 <= mb <= 0x8000_0000_0000_0000,
            ;
        }
        let product: u128 = ma * mb;
        let quotient: u128 = product / 1_000_000;
        let negative: bool = (self.raw < 0) != (rhs.raw < 0);
        proof {
            if product == 0 {
                assert(quotient == 0);
            }
        }
        from_sign_magnitude(negative, quotient)
    }

    /// Checked division, rounded toward zero.
    pub fn div(self, rhs: Scalar) -> (r: Option<Scalar>)
        ensures
            r == self.spec_div(rhs),
    {
        if rhs.raw == 0 {
            return None;
        }
        let ma: u128 = magnitude_of(self.raw);
        let mb: u128 = magnitude_of(rhs.raw);
        let scaled: u128 = ma * 1_000_000;
        let quotient: u128 = scaled / mb;
        let negative: bool = (self.raw < 0) != (rhs.raw < 0);
        proof {
            if scaled == 0 {
                assert(0int / (mb as int) == 0) by (nonlinear_arith)
                    requires
                        mb > 0,
                ;
            }
        }
        from_sign_magnitude(negative, quotient)
    }

    /// Checked square root, rounded down.
    pub fn sqrt(self) -> (r: Option<Scalar>)
        ensures
            r == self.spec_sqrt(),
    {
        if self.raw < 0 {
            return None;
        }
        let scaled: u128 = (self.raw as u128) * 1_000_000;
        let root: u128 = isqrt(scaled);
        from_sign_magnitude(false, root)
    }
}

/// The magnitude of a product is the product of the magnitudes, and a product
/// is negative exactly when its factors are non-zero with different signs.
pub proof fn lemma_product_magnitude(a: int, b: int)
    ensures
        magnitude(a * b) == magnitude(a) * magnitude(b),
        (a * b < 0) == (a != 0 && b != 0 && ((a < 0) != (b < 0))),
{
    assert(magnitude(a * b) == magnitude(a) * magnitude(b)) by (nonlinear_arith);
    assert((a * b < 0) == (a != 0 && b != 0 && ((a < 0) != (b < 0)))) by (nonlinear_arith);
}

/// Two optional scalars are opposite: both absent, or both present with
/// opposite raw values.
pub open spec fn opposite_scalars(p: Option<Scalar>, q: Option<Scalar>) -> bool {
    match (p, q) {
        (Some(p), Some(q)) => q@ == -p@,
        (None, None) => true,
        _ => false,
    }
}

/// Negating the left factor negates the product.
pub proof fn lemma_mul_odd(a: Scalar, na: Scalar, b: Scalar)
    requires
        na@ == -a@,
    ensures
        opposite_scalars(a.spec_mul(b), na.spec_mul(b)),
{
    assert(na@ * b@ == -(a@ * b@)) by (nonlinear_arith)
        requires
            na@ == -a@,
    ;
    lemma_trunc_div_odd(a@ * b@, SCALE as int);
}

/// Negating the dividend negates the quotient.
pub proof fn lemma_div_odd(a: Scalar, na: Scalar, b: Scalar)
    requires
        na@ == -a@,
    ensures
        opposite_scalars(a.spec_div(b), na.spec_div(b)),
{
    if b@ != 0 {
        lemma_trunc_div_odd(a@ * SCALE, b@);
    }
}

/// The product does not depend on the order of its factors.
pub proof fn lemma_mul_commutes(a: Scalar, b: Scalar)
    ensures
        a.spec_mul(b) == b.spec_mul(a),
{
    assert(a@ * b@ == b@ * a@) by (nonlinear_arith);
}

} // verus!
