use vstd::prelude::*;

use crate::direction::{direction_vector, HexDirection};
use crate::fractional::FractionalHex;
use crate::offset::{shove, Offset};

verus! {

/// Absolute value of an integer.
pub open spec fn abs(x: int) -> int {
    if x < 0 { -x } else { x }
}

/// The denominator of the nudge applied before line interpolation: one millionth.
pub const NUDGE_DEN: i64 = 1_000_000;

/// True when `x` is a value of `i32`.
pub open spec fn in_i32(x: int) -> bool {
    i32::MIN <= x <= i32::MAX
}

/// An integer cube coordinate `(q, r, s)` on the hexagonal grid.
///
/// A coordinate is well formed when `q + r + s == 0`; every constructor of
/// this library that computes a coordinate keeps that invariant.
#[derive(Clone, Copy, Debug, PartialEq, Eq, Hash, Structural)]
pub struct Hex {
    pub q: i32,
    pub r: i32,
    pub s: i32,
}

impl Hex {
    /// The cube-coordinate invariant.
    pub open spec fn wf(self) -> bool {
        self.q + self.r + self.s == 0
    }

    /// Hex-grid length: half the sum of the absolute components.
    pub open spec fn length_spec(self) -> int {
        (abs(self.q as int) + abs(self.r as int) + abs(self.s as int)) / 2
    }

    /// Componentwise sum, for operands whose sum fits.
    pub open spec fn plus(self, o: Hex) -> Hex {
        Hex { q: (self.q + o.q) as i32, r: (self.r + o.r) as i32, s: (self.s + o.s) as i32 }
    }

    /// Componentwise difference, for operands whose difference fits.
    pub open spec fn minus(self, o: Hex) -> Hex {
        Hex { q: (self.q - o.q) as i32, r: (self.r - o.r) as i32, s: (self.s - o.s) as i32 }
    }

    /// The opposite coordinate.
    pub open spec fn negated(self) -> Hex {
        Hex { q: -self.q as i32, r: -self.r as i32, s: -self.s as i32 }
    }

    /// True when `self + o` does not overflow.
    pub open spec fn can_add(self, o: Hex) -> bool {
        in_i32(self.q + o.q) && in_i32(self.r + o.r) && in_i32(self.s + o.s)
    }

    /// True when `self - o` does not overflow.
    pub open spec fn can_sub(self, o: Hex) -> bool {
        in_i32(self.q - o.q) && in_i32(self.r - o.r) && in_i32(self.s - o.s)
    }

    /// True when no component is `i32::MIN`, so that every component can be negated.
    pub open spec fn can_negate(self) -> bool {
        self.q > i32::MIN && self.r > i32::MIN && self.s > i32::MIN
    }

    /// True when a unit step in any direction does not overflow.
    pub open spec fn can_step(self) -> bool {
        self.can_negate() && self.q < i32::MAX && self.r < i32::MAX && self.s < i32::MAX
    }

    /// Hex-grid distance between two coordinates.
    pub open spec fn distance_spec(self, o: Hex) -> int {
        (abs(self.q - o.q) + abs(self.r - o.r) + abs(self.s - o.s)) / 2
    }

    /// The neighbour in direction `d`.
    pub open spec fn neighbor_spec(self, d: int) -> Hex {
        self.plus(direction_vector(d))
    }

    /// Rotation by 60 degrees to the left: `(-s, -q, -r)`.
    pub open spec fn rotated_left(self) -> Hex {
        Hex { q: -self.s as i32, r: -self.q as i32, s: -self.r as i32 }
    }

    /// Rotation by 60 degrees to the right: `(-r, -s, -q)`.
    pub open spec fn rotated_right(self) -> Hex {
        Hex { q: -self.r as i32, r: -self.s as i32, s: -self.q as i32 }
    }

    /// The offset coordinate of this coordinate (odd columns shoved).
    pub open spec fn to_offset_spec(self) -> Offset {
        Offset { col: self.q, row: (self.r + shove(self.q as int)) as i32 }
    }

    /// The coordinate with the given components.
    pub fn new(q: i32, r: i32, s: i32) -> (h: Hex)
        ensures
            h.q == q,
            h.r == r,
            h.s == s,
    {
        Hex { q, r, s }
    }

    /// Number of unit steps from the origin to this coordinate.
    pub fn length(self) -> (n: i32)
        requires
            self.length_spec() <= i32::MAX,
        ensures
            n == self.length_spec(),
    {
        let q = self.q as i64;
        let r = self.r as i64;
        let s = self.s as i64;
        let aq: i64 = if q < 0 { -q } else { q };
        let ar: i64 = if r < 0 { -r } else { r };
        let as_: i64 = if s < 0 { -s } else { s };
        ((aq + ar + as_) / 2) as i32
    }



    /// Hex-grid distance to `other`: the length of `self - other`.
    pub fn distance_to(self, other: Hex) -> (n: i32)
        requires
            self.can_sub(other),
            self.distance_spec(other) <= i32::MAX,
        ensures
            n == self.distance_spec(other),
    {
        let d = self - other;
        d.length()
    }

    /// The neighbour of this coordinate in the given direction.
    pub fn neighbor(self, direction: HexDirection) -> (h: Hex)
        requires
            direction.wf(),
            self.can_step(),
        ensures
            h == self.neighbor_spec(direction.index()),
            self.wf() ==> h.wf(),
    {
        let d = direction.to_hex();
        self + d
    }

    /// The six neighbours of this coordinate, in direction order.
    pub fn neighbors(&self) -> (v: Vec<Hex>)
        requires
            self.can_step(),
        ensures
            v@.len() == 6,
            forall|i: int| 0 <= i < 6 ==> #[trigger] v@[i] == self.neighbor_spec(i),
    {
        let mut v: Vec<Hex> = Vec::new();
        let mut i: i32 = 0;
        while i < 6
            invariant
                0 <= i <= 6,
                self.can_step(),
                v@.len() == i,
                forall|j: int| 0 <= j < i ==> #[trigger] v@[j] == self.neighbor_spec(j),
            decreases 6 - i,
        {
            let d = HexDirection::new(i);
            v.push(self.neighbor(d));
            i = i + 1;
        }
        v
    }

    /// Rotation by 60 degrees to the left: `(-s, -q, -r)`.
    pub fn rotate_left(self) -> (h: Hex)
        requires
            self.can_negate(),
        ensures
            h == self.rotated_left(),
    {
        Hex { q: -self.s, r: -self.q, s: -self.r }
    }

    /// Rotation by 60 degrees to the right: `(-r, -s, -q)`.
    pub fn rotate_right(self) -> (h: Hex)
        requires
            self.can_negate(),
        ensures
            h == self.rotated_right(),
    {
        Hex { q: -self.r, r: -self.s, s: -self.q }
    }

    /// This coordinate as a fractional one, over denominator 1.
    pub fn to_fractional_hex(&self) -> (f: FractionalHex)
        ensures
            f == FractionalHex::from_hex_spec(*self),
    {
        FractionalHex::from_hex(*self)
    }

    /// This coordinate moved by `(1e-6, 1e-6, -2e-6)`, off the rounding ties
    /// that a line through grid points meets.
    pub open spec fn nudge_spec(self) -> FractionalHex {
        FractionalHex {
            q: (self.q * NUDGE_DEN + 1) as i128,
            r: (self.r * NUDGE_DEN + 1) as i128,
            s: (self.s * NUDGE_DEN - 2) as i128,
            den: NUDGE_DEN as i128,
        }
    }

    /// This coordinate moved by `(1e-6, 1e-6, -2e-6)`.
    pub fn nudge(self) -> (f: FractionalHex)
        ensures
            f == self.nudge_spec(),
    {
        let d = NUDGE_DEN as i128;
        FractionalHex {
            q: self.q as i128 * d + 1,
            r: self.r as i128 * d + 1,
            s: self.s as i128 * d - 2,
            den: d,
        }
    }

    /// All coordinates within `n` steps of the origin, each once, ordered by
    /// `(q, r)`: the same scan as `make_hexagon`.
    pub fn in_range(&self, n: &i32) -> (v: Vec<Hex>)
        ensures
            forall|x: Hex| v@.contains(x) <==> crate::map::within(x, *n as int),
            v@.no_duplicates(),
    {
        crate::map::make_hexagon(*n)
    }

    /// The offset coordinate of this coordinate: `col = q` and
    /// `row = r + (q + q % 2) / 2`, with truncating division and remainder.
    pub fn to_offset(self) -> (o: Offset)
        requires
            in_i32(self.r + shove(self.q as int)),
        ensures
            o == self.to_offset_spec(),
    {
        let half = crate::offset::shove_exec(self.q);
        Offset { col: self.q, row: self.r + half }
    }
}

impl Default for Hex {
    /// The origin.
    fn default() -> (h: Hex)
        ensures
            h == (Hex { q: 0, r: 0, s: 0 }),
    {
        Hex::new(0, 0, 0)
    }
}

impl core::ops::Add for Hex {
    type Output = Hex;

    /// Componentwise sum.
    fn add(self, rhs: Hex) -> (h: Hex)
        ensures
            h == self.plus(rhs),
    {
        Hex { q: self.q + rhs.q, r: self.r + rhs.r, s: self.s + rhs.s }
    }
}

impl vstd::std_specs::ops::AddSpecImpl for Hex {
    open spec fn obeys_add_spec() -> bool {
        true
    }

    open spec fn add_req(self, rhs: Hex) -> bool {
        self.can_add(rhs)
    }

    open spec fn add_spec(self, rhs: Hex) -> Hex {
        self.plus(rhs)
    }
}

impl core::ops::Sub for Hex {
    type Output = Hex;

    /// Componentwise difference.
    fn sub(self, rhs: Hex) -> (h: Hex)
        ensures
            h == self.minus(rhs),
    {
        Hex { q: self.q - rhs.q, r: self.r - rhs.r, s: self.s - rhs.s }
    }
}

impl vstd::std_specs::ops::SubSpecImpl for Hex {
    open spec fn obeys_sub_spec() -> bool {
        true
    }

    open spec fn sub_req(self, rhs: Hex) -> bool {
        self.can_sub(rhs)
    }

    open spec fn sub_spec(self, rhs: Hex) -> Hex {
        self.minus(rhs)
    }
}

impl core::ops::Neg for Hex {
    type Output = Hex;

    /// The opposite coordinate `(-q, -r, -s)`.
    fn neg(self) -> (h: Hex)
        ensures
            h == self.negated(),
    {
        Hex::new(-self.q, -self.r, -self.s)
    }
}

impl vstd::std_specs::ops::NegSpecImpl for Hex {
    open spec fn obeys_neg_spec() -> bool {
        true
    }

    open spec fn neg_req(self) -> bool {
        self.can_negate()
    }

    open spec fn neg_spec(self) -> Hex {
        self.negated()
    }
}

/// Adding a coordinate's negation gives the origin, and doubling a well-formed
/// coordinate keeps its components summing to zero.
pub proof fn lemma_add_negation(h: Hex)
    requires
        h.wf(),
        h.can_negate(),
        h.can_add(h),
    ensures
        h.can_add(h.negated()),
        h.plus(h.negated()) == (Hex { q: 0, r: 0, s: 0 }),
        h.plus(h).q + h.plus(h).r + h.plus(h).s == 0,
{
}

/// Rotating left then right gives the coordinate back, and six rotations to
/// the left make a full turn.
pub proof fn lemma_rotation_cycle(h: Hex)
    requires
        h.can_negate(),
    ensures
        h.rotated_left().can_negate(),
        h.rotated_left().rotated_right() == h,
        h.rotated_left().rotated_left().rotated_left().rotated_left().rotated_left().rotated_left()
            == h,
{
}

/// Every neighbour lies at distance one.
pub proof fn lemma_neighbor_distance(h: Hex, d: int)
    requires
        0 <= d < 6,
        h.can_step(),
    ensures
        h.neighbor_spec(d).distance_spec(h) == 1,
{
}

/// Truncating division, as Rust's `/` on integers rounds toward zero.
pub open spec fn trunc_div(a: int, b: int) -> int {
    if (a < 0) == (b < 0) {
        abs(a) / abs(b)
    } else {
        -(abs(a) / abs(b))
    }
}

/// True when every component times `k` fits in `i32`.
pub open spec fn can_scale(h: Hex, k: int) -> bool {
    in_i32(h.q * k) && in_i32(h.r * k) && in_i32(h.s * k)
}

impl core::ops::Mul<i32> for Hex {
    type Output = Hex;

    /// Multiplies every component by `rhs`.
    fn mul(self, rhs: i32) -> (h: Hex)
        ensures
            h.q == self.q * rhs,
            h.r == self.r * rhs,
            h.s == self.s * rhs,
    {
        Hex { q: self.q * rhs, r: self.r * rhs, s: self.s * rhs }
    }
}

impl vstd::std_specs::ops::MulSpecImpl<i32> for Hex {
    open spec fn obeys_mul_spec() -> bool {
        true
    }

    open spec fn mul_req(self, rhs: i32) -> bool {
        can_scale(self, rhs as int)
    }

    open spec fn mul_spec(self, rhs: i32) -> Hex {
        Hex { q: (self.q * rhs) as i32, r: (self.r * rhs) as i32, s: (self.s * rhs) as i32 }
    }
}

/// Truncating quotient of two `i32` values, computed on magnitudes.
fn div_trunc(a: i32, b: i32) -> (c: i32)
    requires
        b != 0,
        !(a == i32::MIN && b == -1),
    ensures
        c == trunc_div(a as int, b as int),
{
    let x = a as i64;
    let y = b as i64;
    let ax: i64 = if x < 0 { -x } else { x };
    let ay: i64 = if y < 0 { -y } else { y };
    let m = ax / ay;
    proof {
        assert(m <= ax) by (nonlinear_arith)
            requires m == ax / ay, ax >= 0, ay >= 1;
        assert(ay == 1 ==> m == ax) by (nonlinear_arith)
            requires m == ax / ay, ax >= 0;
        assert(ay >= 2 ==> 2 * m <= ax) by (nonlinear_arith)
            requires m == ax / ay, ax >= 0, ay >= 1;
    }
    if (x < 0) == (y < 0) {
        m as i32
    } else {
        -m as i32
    }
}

impl core::ops::Div<i32> for Hex {
    type Output = Hex;

    /// Divides every component by `rhs`, truncating toward zero. Exact only
    /// where `rhs` divides every component.
    fn div(self, rhs: i32) -> (h: Hex)
        ensures
            h.q == trunc_div(self.q as int, rhs as int),
            h.r == trunc_div(self.r as int, rhs as int),
            h.s == trunc_div(self.s as int, rhs as int),
    {
        Hex { q: div_trunc(self.q, rhs), r: div_trunc(self.r, rhs), s: div_trunc(self.s, rhs) }
    }
}

impl vstd::std_specs::ops::DivSpecImpl<i32> for Hex {
    open spec fn obeys_div_spec() -> bool {
        true
    }

    open spec fn div_req(self, rhs: i32) -> bool {
        rhs != 0 && (rhs == -1 ==> self.can_negate())
    }

    open spec fn div_spec(self, rhs: i32) -> Hex {
        Hex {
            q: trunc_div(self.q as int, rhs as int) as i32,
            r: trunc_div(self.r as int, rhs as int) as i32,
            s: trunc_div(self.s as int, rhs as int) as i32,
        }
    }
}

} // verus!
