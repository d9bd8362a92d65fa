use vstd::prelude::*;
use vstd::arithmetic::div_mod::{lemma_fundamental_div_mod, lemma_fundamental_div_mod_converse};
use vstd::arithmetic::mul::lemma_mul_inequality;

verus! {

/// Number of fractional bits in a fixed-point scalar.
pub const FX_BITS: u64 = 16;

/// The fixed-point representation of one: 2^16.
pub const FX_ONE: i64 = 65536;

/// The raw fixed-point value of pi.
pub const PI_RAW: i64 = 205887;

/// A fixed-point scalar standing for the real number `raw / 65536`.
///
/// All scene arithmetic runs on this type. Every operation saturates at the
/// `i64` range instead of wrapping, and every contract states the raw result
/// exactly, as a mathematical integer.
#[derive(Clone, Copy, PartialEq, Eq, Structural, Debug)]
pub struct Fx {
    pub raw: i64,
}

impl View for Fx {
    type V = int;

    open spec fn view(&self) -> int {
        self.raw as int
    }
}

/// Saturate a mathematical integer into the `i64` range.
pub open spec fn clip(x: int) -> int {
    if x > i64::MAX {
        i64::MAX as int
    } else if x < i64::MIN {
        i64::MIN as int
    } else {
        x
    }
}

/// Build a fixed-point scalar from a mathematical raw value, saturating.
pub open spec fn fx(v: int) -> Fx {
    Fx { raw: clip(v) as i64 }
}

/// Floor division, total: zero when the divisor is zero.
///
/// Verus's `/` on `int` is Euclidean division, which agrees with flooring
/// only for a positive divisor; this wrapper flips signs so that the
/// divisor handed to `/` is always positive.
pub open spec fn fdiv(p: int, q: int) -> int {
    if q > 0 {
        p / q
    } else if q < 0 {
        (-p) / (-q)
    } else {
        0
    }
}

/// The sum of two scalars.
pub open spec fn fx_add(a: Fx, b: Fx) -> Fx {
    fx(a@ + b@)
}

/// The difference of two scalars.
pub open spec fn fx_sub(a: Fx, b: Fx) -> Fx {
    fx(a@ - b@)
}

/// The negation of a scalar.
pub open spec fn fx_neg(a: Fx) -> Fx {
    fx(-a@)
}

/// The product of two scalars: the exact product of the raw values,
/// floor-scaled back by one fixed-point unit.
pub open spec fn fx_mul(a: Fx, b: Fx) -> Fx {
    fx(fdiv(a@ * b@, FX_ONE as int))
}

/// The quotient of two scalars: the numerator pre-scaled by one
/// fixed-point unit, then floor-divided by the raw denominator.
pub open spec fn fx_div(a: Fx, b: Fx) -> Fx {
    fx(fdiv(a@ * (FX_ONE as int), b@))
}

/// The smaller of two scalars.
pub open spec fn fx_min(a: Fx, b: Fx) -> Fx {
    if a@ <= b@ {
        a
    } else {
        b
    }
}

/// The larger of two scalars.
pub open spec fn fx_max(a: Fx, b: Fx) -> Fx {
    if a@ >= b@ {
        a
    } else {
        b
    }
}

/// The absolute value of a scalar (saturating at `i64::MAX`).
pub open spec fn fx_abs(a: Fx) -> Fx {
    if a@ < 0 {
        fx(-a@)
    } else {
        a
    }
}

/// The integer square root: the unique `r >= 0` with
/// `r * r <= n < (r + 1) * (r + 1)`, and zero for `n <= 0`.
pub open spec fn isqrt(n: int) -> int
    decreases n,
{
    if n <= 0 {
        0
    } else {
        let r = isqrt(n - 1);
        if (r + 1) * (r + 1) <= n {
            r + 1
        } else {
            r
        }
    }
}

/// The square root of a scalar: the raw value is the integer square root
/// of the raw argument re-scaled by one fixed-point unit, so the scalar
/// result approximates the real square root from below.
pub open spec fn fx_sqrt(a: Fx) -> Fx {
    fx(isqrt(a@ * (FX_ONE as int)))
}

/// The integer square root is characterized by bracketing squares.
pub proof fn lemma_isqrt(n: int)
    requires
        n >= 0,
    ensures
        isqrt(n) >= 0,
        isqrt(n) * isqrt(n) <= n,
        n < (isqrt(n) + 1) * (isqrt(n) + 1),
    decreases n,
{
    if n == 0 {
    } else {
        lemma_isqrt(n - 1);
        let r = isqrt(n - 1);
        if (r + 1) * (r + 1) <= n {
            assert(n < (r + 2) * (r + 2)) by (nonlinear_arith)
                requires
                    n - 1 < (r + 1) * (r + 1),
                    r >= 0,
            {}
        }
    }
}

/// Any nonnegative root bracketed by squares is the integer square root.
pub proof fn lemma_isqrt_unique(n: int, r: int)
    requires
        n >= 0,
        r >= 0,
        r * r <= n,
        n < (r + 1) * (r + 1),
    ensures
        r == isqrt(n),
{
    lemma_isqrt(n);
    let s = isqrt(n);
    if r < s {
        lemma_mul_inequality(r + 1, s, s);
        assert((r + 1) * s <= s * s);
        lemma_mul_inequality(r + 1, s, r + 1);
        assert((r + 1) * (r + 1) <= s * (r + 1));
        assert(s * (r + 1) == (r + 1) * s) by (nonlinear_arith);
        assert(false);
    }
    if s < r {
        lemma_mul_inequality(s + 1, r, r);
        lemma_mul_inequality(s + 1, r, s + 1);
        assert(r * (s + 1) == (s + 1) * r) by (nonlinear_arith);
        assert(false);
    }
}

/// A symmetric bound on both factors bounds their product.
pub proof fn lemma_mul_bound(a: int, b: int, m: int)
    requires
        -m <= a <= m,
        -m <= b <= m,
        0 <= m,
    ensures
        -(m * m) <= a * b <= m * m,
{
    assert(-(m * m) <= a * b <= m * m) by (nonlinear_arith)
        requires
            -m <= a <= m,
            -m <= b <= m,
            0 <= m,
    {}
}

/// A nonnegative scalar scaled by a unit-interval factor stays between
/// zero and itself.
pub proof fn lemma_mul_unit_range(w: Fx, u: Fx)
    requires
        0 <= w@,
        0 <= u@ < FX_ONE as int,
    ensures
        0 <= fx_mul(w, u)@ <= w@,
{
    let p = w@ * u@;
    assert(0 <= p && p <= 65536 * w@) by (nonlinear_arith)
        requires
            0 <= w@,
            0 <= u@ < 65536,
            p == w@ * u@,
    {}
    vstd::arithmetic::div_mod::lemma_div_pos_is_pos(p, FX_ONE as int);
    vstd::arithmetic::div_mod::lemma_div_is_ordered(p, 65536 * w@, FX_ONE as int);
    vstd::arithmetic::div_mod::lemma_div_multiples_vanish(w@, 65536);
}

/// Multiplication by a fixed factor is monotone, with the direction given
/// by the factor's sign.
pub proof fn lemma_fx_mul_mono(c: Fx, a: Fx, b: Fx)
    requires
        a@ <= b@,
    ensures
        c@ >= 0 ==> fx_mul(c, a)@ <= fx_mul(c, b)@,
        c@ < 0 ==> fx_mul(c, b)@ <= fx_mul(c, a)@,
{
    if c@ >= 0 {
        assert(c@ * a@ <= c@ * b@) by (nonlinear_arith)
            requires
                a@ <= b@,
                c@ >= 0,
        {}
        vstd::arithmetic::div_mod::lemma_div_is_ordered(c@ * a@, c@ * b@, FX_ONE as int);
    } else {
        assert(c@ * b@ <= c@ * a@) by (nonlinear_arith)
            requires
                a@ <= b@,
                c@ < 0,
        {}
        vstd::arithmetic::div_mod::lemma_div_is_ordered(c@ * b@, c@ * a@, FX_ONE as int);
    }
}

/// A scalar times itself is nonnegative.
pub proof fn lemma_mul_self_nonneg(a: Fx)
    ensures
        fx_mul(a, a)@ >= 0,
{
    assert(a@ * a@ >= 0) by (nonlinear_arith);
    assert(a@ * a@ / (FX_ONE as int) >= 0) by (nonlinear_arith)
        requires
            a@ * a@ >= 0,
    {}
}

/// Floor division by a positive divisor, on machine integers.
///
/// Computes `fdiv(p, q)` for `q > 0` by reducing to unsigned division.
pub(crate) fn floor_div_i128(p: i128, q: i128) -> (r: i128)
    requires
        0 < q <= u64::MAX,
        -0x40000000000000000000000000000000 <= p,
    ensures
        r as int == fdiv(p as int, q as int),
{
    let qq: u128 = q as u128;
    if p >= 0 {
        let d: u128 = (p as u128) / qq;
        proof {
            assert(d <= p as int);
        }
        d as i128
    } else {
        let m: u128 = (-p) as u128;
        let d: u128 = (m + (qq - 1)) / qq;
        proof {
            let mi = m as int;
            let qi = q as int;
            let di = d as int;
            let e = mi + qi - 1;
            lemma_fundamental_div_mod(e, qi);
            assert(e == qi * di + e % qi);
            // d is the ceiling of m / q; show -d is the floor of -m / q.
            let rr = qi * di - mi;
            assert(rr == qi - 1 - e % qi);
            assert(0 <= rr < qi);
            assert(-mi == (-di) * qi + rr) by (nonlinear_arith)
                requires
                    rr == qi * di - mi,
            {}
            lemma_fundamental_div_mod_converse(-mi, qi, -di, rr);
            assert(di <= mi) by (nonlinear_arith)
                requires
                    qi * di <= mi + qi - 1,
                    qi >= 1,
                    di >= 0,
                    mi >= 0,
            {}
        }
        -(d as i128)
    }
}

/// Saturate a 128-bit value into the `i64` range.
fn clip_i128(v: i128) -> (r: i64)
    ensures
        r as int == clip(v as int),
{
    if v > i64::MAX as i128 {
        i64::MAX
    } else if v < i64::MIN as i128 {
        i64::MIN
    } else {
        v as i64
    }
}

impl Fx {
    /// The scalar zero.
    pub fn zero() -> (r: Fx)
        ensures
            r@ == 0,
    {
        Fx { raw: 0 }
    }

    /// The scalar one.
    pub fn one() -> (r: Fx)
        ensures
            r@ == FX_ONE as int,
    {
        Fx { raw: FX_ONE }
    }

    /// A scalar from a raw fixed-point value.
    pub fn from_raw(raw: i64) -> (r: Fx)
        ensures
            r@ == raw as int,
    {
        Fx { raw }
    }

    /// A scalar from a whole number.
    pub fn from_int(i: i64) -> (r: Fx)
        requires
            -140737488355328 <= i < 140737488355328,
        ensures
            r@ == i * (FX_ONE as int),
    {
        Fx { raw: i * FX_ONE }
    }

    /// A scalar standing for a collection size (saturating for sizes past
    /// the representable range).
    pub fn from_count(n: usize) -> (r: Fx)
        ensures
            r == fx(n as int * (FX_ONE as int)),
    {
        let p: i128 = (n as i128) * (FX_ONE as i128);
        Fx { raw: clip_i128(p) }
    }

    /// Saturating addition.
    pub fn add(self, other: Fx) -> (r: Fx)
        ensures
            r == fx_add(self, other),
    {
        let s: i128 = self.raw as i128 + other.raw as i128;
        Fx { raw: clip_i128(s) }
    }

    /// Saturating subtraction.
    pub fn sub(self, other: Fx) -> (r: Fx)
        ensures
            r == fx_sub(self, other),
    {
        let s: i128 = self.raw as i128 - other.raw as i128;
        Fx { raw: clip_i128(s) }
    }

    /// Saturating negation.
    pub fn neg(self) -> (r: Fx)
        ensures
            r == fx_neg(self),
    {
        let s: i128 = -(self.raw as i128);
        Fx { raw: clip_i128(s) }
    }

    /// Saturating fixed-point multiplication.
    pub fn mul(self, other: Fx) -> (r: Fx)
        ensures
            r == fx_mul(self, other),
    {
        proof {
            lemma_mul_bound(self.raw as int, other.raw as int, 0x8000000000000000);
        }
        let p: i128 = (self.raw as i128) * (other.raw as i128);
        let q = floor_div_i128(p, FX_ONE as i128);
        Fx { raw: clip_i128(q) }
    }

    /// Saturating fixed-point division.
    pub fn div(self, other: Fx) -> (r: Fx)
        requires
            other@ != 0,
        ensures
            r == fx_div(self, other),
    {
        proof {
            lemma_mul_bound(self.raw as int, FX_ONE as int, 0x8000000000000000);
        }
        let p: i128 = (self.raw as i128) * (FX_ONE as i128);
        let q: i128 = if other.raw > 0 {
            floor_div_i128(p, other.raw as i128)
        } else {
            floor_div_i128(-p, -(other.raw as i128))
        };
        Fx { raw: clip_i128(q) }
    }

    /// The smaller of two scalars.
    pub fn min(self, other: Fx) -> (r: Fx)
        ensures
            r == fx_min(self, other),
    {
        if self.raw <= other.raw {
            self
        } else {
            other
        }
    }

    /// The larger of two scalars.
    pub fn max(self, other: Fx) -> (r: Fx)
        ensures
            r == fx_max(self, other),
    {
        if self.raw >= other.raw {
            self
        } else {
            other
        }
    }

    /// The absolute value, saturating at `i64::MAX`.
    pub fn abs(self) -> (r: Fx)
        ensures
            r == fx_abs(self),
    {
        if self.raw < 0 {
            self.neg()
        } else {
            self
        }
    }

    /// Whether this scalar is strictly less than another.
    pub fn lt(self, other: Fx) -> (r: bool)
        ensures
            r == (self@ < other@),
    {
        self.raw < other.raw
    }

    /// Whether this scalar is at most another.
    pub fn le(self, other: Fx) -> (r: bool)
        ensures
            r == (self@ <= other@),
    {
        self.raw <= other.raw
    }

    /// Whether this scalar is negative.
    pub fn is_neg(self) -> (r: bool)
        ensures
            r == (self@ < 0),
    {
        self.raw < 0
    }

    /// A low-accuracy natural logarithm of a scalar in (0, 1], by
    /// normalizing to [1, 2) and a short arctanh series. Callers rely only
    /// on the result being nonpositive; the value feeds free-flight
    /// sampling, where a small bias is drowned by the randomness.
    pub(crate) fn ln_lower(self) -> (r: Fx)
        requires
            1 <= self@ <= FX_ONE as int,
        ensures
            r@ <= 0,
    {
        let one = Fx { raw: FX_ONE };
        let mut raw: i64 = self.raw;
        let mut e: u64 = 0;
        while e < 17 && raw < FX_ONE
            invariant
                1 <= raw as int <= 131071,
                e <= 17,
            decreases 17 - e,
        {
            raw = raw * 2;
            e = e + 1;
        }
        let m = Fx { raw };
        let w = m.sub(one).div(m.add(one));
        let w2 = w.mul(w);
        let w4 = w2.mul(w2);
        let series = one.add(w2.div(Fx { raw: 3 * FX_ONE })).add(w4.div(Fx { raw: 5 * FX_ONE }));
        let lnm = w.add(w).mul(series);
        let res = lnm.sub(Fx { raw: (e as i64) * 45426 });
        if res.raw > 0 {
            Fx { raw: 0 }
        } else {
            res
        }
    }

    /// The square root, rounded down to the fixed-point grid.
    pub fn sqrt(self) -> (r: Fx)
        requires
            self@ >= 0,
        ensures
            r == fx_sqrt(self),
            r@ >= 0,
    {
        proof {
            lemma_mul_inequality(self.raw as int, 0x7fffffffffffffff, FX_ONE as int);
        }
        let n: u128 = (self.raw as u128) * (FX_ONE as u128);
        let mut lo: u128 = 0;
        let mut hi: u128 = 0x10000000000;
        proof {
            assert((0x10000000000 as int) * (0x10000000000 as int) > n as int) by (nonlinear_arith)
                requires
                    n as int <= 0x7fffffffffffffff * 65536,
            {}
        }
        while hi - lo > 1
            invariant
                0 <= lo < hi <= 0x10000000000,
                (lo as int) * (lo as int) <= n as int,
                (n as int) < (hi as int) * (hi as int),
            decreases hi - lo,
        {
            let mid: u128 = lo + (hi - lo) / 2;
            proof {
                lemma_mul_bound(mid as int, mid as int, 0x10000000000);
            }
            if mid * mid <= n {
                lo = mid;
            } else {
                hi = mid;
            }
        }
        proof {
            lemma_isqrt_unique(n as int, lo as int);
        }
        Fx { raw: lo as i64 }
    }
}

} // verus!
