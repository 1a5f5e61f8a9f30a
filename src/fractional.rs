use vstd::prelude::*;

use crate::hex::{abs, in_i32, Hex};

verus! {

/// Largest magnitude of a numerator or denominator that rounding accepts.
pub const FRACTION_LIMIT: i128 = 0x1_0000_0000_0000_0000_0000_0000;

/// The integer nearest to `n / d` (for `d > 0`), halves rounded away from zero.
pub open spec fn round_half_away(n: int, d: int) -> int {
    if n >= 0 {
        (2 * n + d) / (2 * d)
    } else {
        -((2 * -n + d) / (2 * d))
    }
}

/// `d` times the distance from `n / d` to its rounded value.
pub open spec fn discrepancy(n: int, d: int) -> int {
    abs(n - round_half_away(n, d) * d)
}

/// A fractional cube coordinate `(q / den, r / den, s / den)`, held exactly as
/// integer numerators over one positive denominator.
#[derive(Clone, Copy, Debug, PartialEq, Eq, Structural)]
pub struct FractionalHex {
    pub q: i128,
    pub r: i128,
    pub s: i128,
    pub den: i128,
}

impl FractionalHex {
    /// The denominator is positive and every part is within `FRACTION_LIMIT`.
    pub open spec fn bounded(self) -> bool {
        0 < self.den <= FRACTION_LIMIT && abs(self.q as int) <= FRACTION_LIMIT && abs(
            self.r as int,
        ) <= FRACTION_LIMIT && abs(self.s as int) <= FRACTION_LIMIT
    }

    /// The result of rounding, as integers: each component is rounded to the
    /// nearest integer; then the component with the strictly greatest
    /// discrepancy (q first, then r against s, else s) is replaced by minus
    /// the sum of the other two rounded components.
    pub open spec fn round_spec(self) -> (int, int, int) {
        let d = self.den as int;
        let rq = round_half_away(self.q as int, d);
        let rr = round_half_away(self.r as int, d);
        let rs = round_half_away(self.s as int, d);
        let dq = discrepancy(self.q as int, d);
        let dr = discrepancy(self.r as int, d);
        let ds = discrepancy(self.s as int, d);
        if dq > dr && dq > ds {
            (-rr - rs, rr, rs)
        } else if dr > ds {
            (rq, -rq - rs, rs)
        } else {
            (rq, rr, -rq - rr)
        }
    }

    /// The rounded coordinate fits in `i32`.
    pub open spec fn round_fits(self) -> bool {
        let (a, b, c) = self.round_spec();
        in_i32(a) && in_i32(b) && in_i32(c)
    }

    /// The fractional coordinate `(q / den, r / den, s / den)`.
    pub fn new(q: i128, r: i128, s: i128, den: i128) -> (f: FractionalHex)
        ensures
            f == (FractionalHex { q, r, s, den }),
    {
        FractionalHex { q, r, s, den }
    }

    /// The nearest cube coordinate; always well formed.
    pub fn round(&self) -> (h: Hex)
        requires
            self.bounded(),
            self.round_fits(),
        ensures
            h.q == self.round_spec().0,
            h.r == self.round_spec().1,
            h.s == self.round_spec().2,
            h.wf(),
    {
        let d = self.den;
        let (rq, dq) = round_component(self.q, d);
        let (rr, dr) = round_component(self.r, d);
        let (rs, ds) = round_component(self.s, d);
        if dq > dr && dq > ds {
            Hex { q: (-rr - rs) as i32, r: rr as i32, s: rs as i32 }
        } else if dr > ds {
            Hex { q: rq as i32, r: (-rq - rs) as i32, s: rs as i32 }
        } else {
            Hex { q: rq as i32, r: rr as i32, s: (-rq - rr) as i32 }
        }
    }
}

/// True when `x` is a value of `i128`.
pub open spec fn in_i128(x: int) -> bool {
    i128::MIN <= x <= i128::MAX
}

impl FractionalHex {
    /// The sum `self + o` over the common denominator `self.den * o.den`.
    pub open spec fn sum(self, o: FractionalHex) -> FractionalHex {
        FractionalHex {
            q: (self.q * o.den + o.q * self.den) as i128,
            r: (self.r * o.den + o.r * self.den) as i128,
            s: (self.s * o.den + o.s * self.den) as i128,
            den: (self.den * o.den) as i128,
        }
    }

    /// True when `self.sum(o)` and `self.sum(o.opposite())` do not overflow.
    pub open spec fn can_sum(self, o: FractionalHex) -> bool {
        in_i128(self.q * o.den + o.q * self.den) && in_i128(self.q * o.den - o.q * self.den)
            && in_i128(self.r * o.den + o.r * self.den) && in_i128(self.r * o.den - o.r * self.den)
            && in_i128(self.s * o.den + o.s * self.den) && in_i128(self.s * o.den - o.s * self.den)
            && in_i128(self.den * o.den) && o.can_negate()
    }

    /// The opposite coordinate, over the same denominator.
    pub open spec fn opposite(self) -> FractionalHex {
        FractionalHex { q: -self.q as i128, r: -self.r as i128, s: -self.s as i128, den: self.den }
    }

    /// True when no numerator is `i128::MIN`.
    pub open spec fn can_negate(self) -> bool {
        self.q > i128::MIN && self.r > i128::MIN && self.s > i128::MIN
    }

    /// The sum of two fractional coordinates.
    pub fn add(self, rhs: FractionalHex) -> (f: FractionalHex)
        requires
            self.can_sum(rhs),
        ensures
            f == self.sum(rhs),
    {
        FractionalHex {
            q: self.q * rhs.den + rhs.q * self.den,
            r: self.r * rhs.den + rhs.r * self.den,
            s: self.s * rhs.den + rhs.s * self.den,
            den: self.den * rhs.den,
        }
    }

    /// The difference of two fractional coordinates.
    pub fn sub(self, rhs: FractionalHex) -> (f: FractionalHex)
        requires
            self.can_sum(rhs),
        ensures
            f == self.sum(rhs.opposite()),
    {
        proof {
            let d = self.den as int;
            assert((-rhs.q) * d == -(rhs.q * d)) by (nonlinear_arith);
            assert((-rhs.r) * d == -(rhs.r * d)) by (nonlinear_arith);
            assert((-rhs.s) * d == -(rhs.s * d)) by (nonlinear_arith);
        }
        FractionalHex {
            q: self.q * rhs.den - rhs.q * self.den,
            r: self.r * rhs.den - rhs.r * self.den,
            s: self.s * rhs.den - rhs.s * self.den,
            den: self.den * rhs.den,
        }
    }

    /// The sum of this fractional coordinate and a widened cube coordinate.
    pub fn add_hex(self, rhs: Hex) -> (f: FractionalHex)
        requires
            self.can_sum(FractionalHex::from_hex_spec(rhs)),
        ensures
            f == self.sum(FractionalHex::from_hex_spec(rhs)),
    {
        self.add(FractionalHex::from_hex(rhs))
    }

    /// The difference of this fractional coordinate and a widened cube coordinate.
    pub fn sub_hex(self, rhs: Hex) -> (f: FractionalHex)
        requires
            self.can_sum(FractionalHex::from_hex_spec(rhs)),
        ensures
            f == self.sum(FractionalHex::from_hex_spec(rhs).opposite()),
    {
        self.sub(FractionalHex::from_hex(rhs))
    }

    /// The opposite coordinate.
    pub fn neg(self) -> (f: FractionalHex)
        requires
            self.can_negate(),
        ensures
            f == self.opposite(),
    {
        FractionalHex { q: -self.q, r: -self.r, s: -self.s, den: self.den }
    }

    /// This coordinate multiplied by `num / den`, with `den > 0`.
    pub fn scale(self, num: i128, den: i128) -> (f: FractionalHex)
        requires
            den > 0,
            in_i128(self.q * num),
            in_i128(self.r * num),
            in_i128(self.s * num),
            in_i128(self.den * den),
        ensures
            f.q == self.q * num,
            f.r == self.r * num,
            f.s == self.s * num,
            f.den == self.den * den,
    {
        FractionalHex { q: self.q * num, r: self.r * num, s: self.s * num, den: self.den * den }
    }

    /// A cube coordinate widened to a fractional one, over denominator 1.
    pub open spec fn from_hex_spec(h: Hex) -> FractionalHex {
        FractionalHex { q: h.q as i128, r: h.r as i128, s: h.s as i128, den: 1 }
    }

    /// A cube coordinate widened to a fractional one.
    pub fn from_hex(h: Hex) -> (f: FractionalHex)
        ensures
            f == FractionalHex::from_hex_spec(h),
    {
        FractionalHex { q: h.q as i128, r: h.r as i128, s: h.s as i128, den: 1 }
    }
}

/// Rounding stays within half a unit: `2 * discrepancy(n, d) <= d`.
pub proof fn lemma_round_close(n: int, d: int)
    requires
        d > 0,
    ensures
        2 * discrepancy(n, d) <= d,
{
    let m = if n >= 0 { n } else { -n };
    let k = (2 * m + d) / (2 * d);
    vstd::arithmetic::div_mod::lemma_fundamental_div_mod(2 * m + d, 2 * d);
    let rem = (2 * m + d) % (2 * d);
    assert(2 * m + d == 2 * d * k + rem);
    assert(2 * d * k == 2 * (k * d)) by (nonlinear_arith);
    if n < 0 {
        assert(round_half_away(n, d) == -k);
        assert(-k * d == -(k * d)) by (nonlinear_arith);
    }
}

/// A value at most `m` units from zero rounds to at most `m` from zero.
pub proof fn lemma_round_bound(n: int, d: int, m: int)
    requires
        d > 0,
        m >= 0,
        abs(n) <= m * d,
    ensures
        abs(round_half_away(n, d)) <= m,
{
    lemma_round_close(n, d);
    let k = round_half_away(n, d);
    assert(abs(k) * d == abs(k * d)) by (nonlinear_arith)
        requires d > 0;
    assert(abs(k * d) <= abs(n) + discrepancy(n, d));
    assert(abs(k) * d < (m + 1) * d) by (nonlinear_arith)
        requires abs(k) * d <= m * d + d / 2, d > 0;
    assert(abs(k) <= m) by (nonlinear_arith)
        requires d > 0, abs(k) * d < (m + 1) * d;
}

/// The nearest integer to `n / d` and `d` times its distance to `n / d`.
fn round_component(n: i128, d: i128) -> (res: (i128, i128))
    requires
        0 < d <= FRACTION_LIMIT,
        abs(n as int) <= FRACTION_LIMIT,
    ensures
        res.0 == round_half_away(n as int, d as int),
        res.1 == discrepancy(n as int, d as int),
        abs(res.0 as int) <= abs(n as int) + 1,
{
    let k: i128 = if n >= 0 {
        (2 * n + d) / (2 * d)
    } else {
        -((2 * -n + d) / (2 * d))
    };
    proof {
        lemma_round_close(n as int, d as int);
        assert(abs(n as int) <= (abs(n as int) + 1) * d) by (nonlinear_arith)
            requires d >= 1, abs(n as int) >= 0;
        lemma_round_bound(n as int, d as int, abs(n as int) + 1);
        assert(abs(k * d) <= abs(n as int) + d);
    }
    let diff = n - k * d;
    let dis: i128 = if diff < 0 { -diff } else { diff };
    (k, dis)
}

} // verus!
