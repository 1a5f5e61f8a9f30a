use vstd::prelude::*;

use crate::fractional::{discrepancy, lemma_round_bound, round_half_away, FractionalHex};
use crate::hex::{abs, Hex, NUDGE_DEN};

verus! {

/// Largest magnitude of a component of a line's end points.
pub const LINE_LIMIT: i32 = 0x2000_0000;

/// Every component of `h` is within `LINE_LIMIT`.
pub open spec fn line_bounded(h: Hex) -> bool {
    abs(h.q as int) <= LINE_LIMIT && abs(h.r as int) <= LINE_LIMIT && abs(h.s as int)
        <= LINE_LIMIT
}

/// `a + (b - a) * i / steps` for two fractional coordinates over one
/// denominator, exactly, over the denominator `a.den * steps`.
pub open spec fn hex_lerp_spec(a: FractionalHex, b: FractionalHex, i: int, steps: int) -> FractionalHex {
    FractionalHex {
        q: (a.q * steps + (b.q - a.q) * i) as i128,
        r: (a.r * steps + (b.r - a.r) * i) as i128,
        s: (a.s * steps + (b.s - a.s) * i) as i128,
        den: (a.den * steps) as i128,
    }
}

/// The `i`-th point of the line from `a` to `b` in `steps` steps: the
/// interpolation of the nudged end points, rounded.
pub open spec fn line_point(a: Hex, b: Hex, i: int, steps: int) -> Hex {
    let (q, r, s) = hex_lerp_spec(a.nudge_spec(), b.nudge_spec(), i, steps).round_spec();
    Hex { q: q as i32, r: r as i32, s: s as i32 }
}

/// The point `i / steps` of the way from `a` to `b`.
fn hex_lerp(a: FractionalHex, b: FractionalHex, i: i128, steps: i128) -> (f: FractionalHex)
    requires
        a.den == b.den,
        0 < a.den <= NUDGE_DEN,
        0 <= i <= steps <= i32::MAX,
        abs(a.q as int) <= 0x4_0000_0000_0000,
        abs(a.r as int) <= 0x4_0000_0000_0000,
        abs(a.s as int) <= 0x4_0000_0000_0000,
        abs(b.q as int) <= 0x4_0000_0000_0000,
        abs(b.r as int) <= 0x4_0000_0000_0000,
        abs(b.s as int) <= 0x4_0000_0000_0000,
    ensures
        f == hex_lerp_spec(a, b, i as int, steps as int),
{
    proof {
        lemma_lerp_bound(a.q as int, b.q as int, i as int, steps as int, 0x4_0000_0000_0000);
        lemma_lerp_bound(a.r as int, b.r as int, i as int, steps as int, 0x4_0000_0000_0000);
        lemma_lerp_bound(a.s as int, b.s as int, i as int, steps as int, 0x4_0000_0000_0000);
        assert(a.q * steps <= 0x4_0000_0000_0000 * 0x8000_0000) by (nonlinear_arith)
            requires abs(a.q as int) <= 0x4_0000_0000_0000, 0 <= steps <= 0x8000_0000;
        assert(a.q * steps >= -0x4_0000_0000_0000 * 0x8000_0000) by (nonlinear_arith)
            requires abs(a.q as int) <= 0x4_0000_0000_0000, 0 <= steps <= 0x8000_0000;
        assert(a.r * steps <= 0x4_0000_0000_0000 * 0x8000_0000) by (nonlinear_arith)
            requires abs(a.r as int) <= 0x4_0000_0000_0000, 0 <= steps <= 0x8000_0000;
        assert(a.r * steps >= -0x4_0000_0000_0000 * 0x8000_0000) by (nonlinear_arith)
            requires abs(a.r as int) <= 0x4_0000_0000_0000, 0 <= steps <= 0x8000_0000;
        assert(a.s * steps <= 0x4_0000_0000_0000 * 0x8000_0000) by (nonlinear_arith)
            requires abs(a.s as int) <= 0x4_0000_0000_0000, 0 <= steps <= 0x8000_0000;
        assert(a.s * steps >= -0x4_0000_0000_0000 * 0x8000_0000) by (nonlinear_arith)
            requires abs(a.s as int) <= 0x4_0000_0000_0000, 0 <= steps <= 0x8000_0000;
        assert(a.den * steps <= NUDGE_DEN * 0x8000_0000) by (nonlinear_arith)
            requires 0 < a.den <= NUDGE_DEN, 0 <= steps <= 0x8000_0000;
        assert((b.q - a.q) * i == a.q * steps + (b.q - a.q) * i - a.q * steps);
    }
    FractionalHex {
        q: a.q * steps + (b.q - a.q) * i,
        r: a.r * steps + (b.r - a.r) * i,
        s: a.s * steps + (b.s - a.s) * i,
        den: a.den * steps,
    }
}

/// Interpolating between two values of magnitude at most `m` stays within `m`.
proof fn lemma_lerp_bound(x: int, y: int, i: int, n: int, m: int)
    requires
        abs(x) <= m,
        abs(y) <= m,
        0 <= i <= n,
    ensures
        abs(x * n + (y - x) * i) <= m * n,
        abs((y - x) * i) <= 2 * m * n,
{
    assert(x * n + (y - x) * i == x * (n - i) + y * i) by (nonlinear_arith);
    assert(abs(x * (n - i)) <= m * (n - i)) by (nonlinear_arith)
        requires abs(x) <= m, n - i >= 0;
    assert(abs(y * i) <= m * i) by (nonlinear_arith)
        requires abs(y) <= m, i >= 0;
    assert(m * (n - i) + m * i == m * n) by (nonlinear_arith);
    assert(abs((y - x) * i) <= 2 * m * i) by (nonlinear_arith)
        requires abs(y - x) <= 2 * m, i >= 0;
    assert(2 * m * i <= 2 * m * n) by (nonlinear_arith)
        requires m >= 0, i <= n;
}

/// The coordinates of the straight line from `a` to `b`: for `i` in
/// `0..=n`, where `n` is the distance, the point `i / max(n, 1)` of the way
/// between the nudged end points, rounded.
pub fn line(a: &Hex, b: &Hex) -> (v: Vec<Hex>)
    requires
        line_bounded(*a),
        line_bounded(*b),
    ensures
        v@.len() == a.distance_spec(*b) + 1,
        a.wf() ==> v@[0] == *a,
        a.wf() && b.wf() ==> v@[v@.len() - 1] == *b,
        forall|i: int|
            0 <= i < v@.len() ==> #[trigger] v@[i] == line_point(
                *a,
                *b,
                i,
                if a.distance_spec(*b) > 0 { a.distance_spec(*b) } else { 1 },
            ),
{
    let n = a.distance_to(*b);
    proof {
        lemma_line_ends(*a, *b);
    }
    let steps: i128 = if n > 0 { n as i128 } else { 1 };
    let na = a.nudge();
    let nb = b.nudge();
    let mut v: Vec<Hex> = Vec::new();
    let mut i: i128 = 0;
    while i <= n as i128
        invariant
            0 <= n,
            n == a.distance_spec(*b),
            steps == if n > 0 { n as int } else { 1 },
            na == a.nudge_spec(),
            nb == b.nudge_spec(),
            line_bounded(*a),
            line_bounded(*b),
            0 <= i <= n + 1,
            v@.len() == i,
            forall|j: int| 0 <= j < i ==> #[trigger] v@[j] == line_point(*a, *b, j, steps as int),
        decreases n + 1 - i,
    {
        let f = hex_lerp(na, nb, i, steps);
        proof {
            lemma_line_point_fits(*a, *b, i as int, steps as int);
        }
        let h = f.round();
        v.push(h);
        i = i + 1;
    }
    v
}

/// A line starts at its first end point and, for well-formed end points,
/// ends at its second.
proof fn lemma_line_ends(a: Hex, b: Hex)
    requires
        line_bounded(a),
        line_bounded(b),
    ensures
        ({
            let n = a.distance_spec(b);
            let steps = if n > 0 { n } else { 1 };
            &&& a.wf() ==> line_point(a, b, 0, steps) == a
            &&& a.wf() && b.wf() ==> line_point(a, b, n, steps) == b
        }),
{
    let n = a.distance_spec(b);
    let steps = if n > 0 { n } else { 1 };
    assert(steps <= i32::MAX);
    if a.wf() {
        lemma_nudged_end(a, steps);
        assert(hex_lerp_spec(a.nudge_spec(), b.nudge_spec(), 0, steps) == hex_lerp_spec(
            a.nudge_spec(),
            a.nudge_spec(),
            0,
            steps,
        ));
    }
    if a.wf() && b.wf() {
        lemma_nudged_end(b, steps);
        if n > 0 {
            lemma_lerp_end(a.nudge_spec(), b.nudge_spec(), steps);
            assert(line_point(a, b, steps, steps) == line_point(b, b, 0, steps));
        } else {
            assert(a == b);
        }
    }
}

/// A nudged component `c + e / D` (with `D = NUDGE_DEN`), over `D * steps`,
/// rounds to `c` with discrepancy `|e| * steps`.
proof fn lemma_nudged_component(c: int, e: int, steps: int)
    requires
        e == 1 || e == -2,
        steps > 0,
    ensures
        round_half_away((c * NUDGE_DEN + e) * steps, NUDGE_DEN * steps) == c,
        discrepancy((c * NUDGE_DEN + e) * steps, NUDGE_DEN * steps) == abs(e) * steps,
{
    let d: int = NUDGE_DEN as int;
    let x = c * d + e;
    let n = x * steps;
    assert(n - c * (d * steps) == e * steps) by (nonlinear_arith)
        requires n == (c * d + e) * steps;
    assert(2 * (d * steps) == steps * (2 * d)) by (nonlinear_arith);
    if n >= 0 {
        assert(x >= 0) by (nonlinear_arith)
            requires n == x * steps, steps > 0, n >= 0;
        assert(2 * n + d * steps == steps * (2 * x + d)) by (nonlinear_arith)
            requires n == x * steps;
        vstd::arithmetic::div_mod::lemma_div_multiples_vanish_quotient(steps, 2 * x + d, 2 * d);
        assert(2 * x + d == c * (2 * d) + (2 * e + d)) by (nonlinear_arith)
            requires x == c * d + e;
        vstd::arithmetic::div_mod::lemma_fundamental_div_mod_converse(2 * x + d, 2 * d, c, 2 * e + d);
    } else {
        assert(x < 0) by (nonlinear_arith)
            requires n == x * steps, steps > 0, n < 0;
        assert(2 * -n + d * steps == steps * (2 * -x + d)) by (nonlinear_arith)
            requires n == x * steps;
        vstd::arithmetic::div_mod::lemma_div_multiples_vanish_quotient(steps, 2 * -x + d, 2 * d);
        assert(2 * -x + d == (-c) * (2 * d) + (d - 2 * e)) by (nonlinear_arith)
            requires x == c * d + e;
        vstd::arithmetic::div_mod::lemma_fundamental_div_mod_converse(2 * -x + d, 2 * d, -c, d - 2 * e);
    }
    assert(abs(e * steps) == abs(e) * steps) by (nonlinear_arith)
        requires steps > 0;
}

/// A well-formed coordinate, nudged and put over `NUDGE_DEN * steps`, rounds
/// back to itself.
proof fn lemma_nudged_end(h: Hex, steps: int)
    requires
        h.wf(),
        line_bounded(h),
        0 < steps <= i32::MAX,
    ensures
        line_point(h, h, 0, steps) == h,
{
    let n = h.nudge_spec();
    let f = hex_lerp_spec(n, n, 0, steps);
    lemma_line_point_fits(h, h, 0, steps);
    lemma_nudged_component(h.q as int, 1, steps);
    lemma_nudged_component(h.r as int, 1, steps);
    lemma_nudged_component(h.s as int, -2, steps);
    assert(n.q == h.q * NUDGE_DEN + 1);
    assert(n.r == h.r * NUDGE_DEN + 1);
    assert(n.s == h.s * NUDGE_DEN - 2);
    assert(abs(n.q * steps) <= 0x4_0000_0000_0000 * 0x8000_0000) by (nonlinear_arith)
        requires abs(n.q as int) <= 0x4_0000_0000_0000, 0 < steps <= 0x8000_0000;
    assert(abs(n.r * steps) <= 0x4_0000_0000_0000 * 0x8000_0000) by (nonlinear_arith)
        requires abs(n.r as int) <= 0x4_0000_0000_0000, 0 < steps <= 0x8000_0000;
    assert(abs(n.s * steps) <= 0x4_0000_0000_0000 * 0x8000_0000) by (nonlinear_arith)
        requires abs(n.s as int) <= 0x4_0000_0000_0000, 0 < steps <= 0x8000_0000;
    assert(NUDGE_DEN * steps <= NUDGE_DEN * 0x8000_0000) by (nonlinear_arith)
        requires 0 < steps <= 0x8000_0000;
    assert(f.q == (h.q * NUDGE_DEN + 1) * steps);
    assert(f.r == (h.r * NUDGE_DEN + 1) * steps);
    assert(f.s == (h.s * NUDGE_DEN - 2) * steps);
    assert(f.den == NUDGE_DEN * steps);
}

/// The last point of an interpolation is the far end point, put over the
/// same denominator as the first.
proof fn lemma_lerp_end(a: FractionalHex, b: FractionalHex, steps: int)
    requires
        a.den == b.den,
    ensures
        hex_lerp_spec(a, b, steps, steps) == hex_lerp_spec(b, b, 0, steps),
{
    assert(a.q * steps + (b.q - a.q) * steps == b.q * steps) by (nonlinear_arith);
    assert(a.r * steps + (b.r - a.r) * steps == b.r * steps) by (nonlinear_arith);
    assert(a.s * steps + (b.s - a.s) * steps == b.s * steps) by (nonlinear_arith);
}

/// Each interpolated point of a line is bounded and rounds into `i32`.
proof fn lemma_line_point_fits(a: Hex, b: Hex, i: int, steps: int)
    requires
        line_bounded(a),
        line_bounded(b),
        0 <= i <= steps,
        0 < steps <= i32::MAX,
    ensures
        hex_lerp_spec(a.nudge_spec(), b.nudge_spec(), i, steps).bounded(),
        hex_lerp_spec(a.nudge_spec(), b.nudge_spec(), i, steps).round_fits(),
{
    let na = a.nudge_spec();
    let nb = b.nudge_spec();
    let m: int = LINE_LIMIT * NUDGE_DEN + 2;
    let k: int = LINE_LIMIT + 1;
    let f = hex_lerp_spec(na, nb, i, steps);
    assert(abs(na.q as int) <= m && abs(na.r as int) <= m && abs(na.s as int) <= m);
    assert(abs(nb.q as int) <= m && abs(nb.r as int) <= m && abs(nb.s as int) <= m);
    lemma_lerp_bound(na.q as int, nb.q as int, i, steps, m);
    lemma_lerp_bound(na.r as int, nb.r as int, i, steps, m);
    lemma_lerp_bound(na.s as int, nb.s as int, i, steps, m);
    assert(m * steps <= k * (NUDGE_DEN * steps)) by (nonlinear_arith)
        requires m == LINE_LIMIT * NUDGE_DEN + 2, k == LINE_LIMIT + 1, steps > 0;
    assert(m * steps <= m * 0x8000_0000) by (nonlinear_arith)
        requires m >= 0, 0 < steps <= 0x8000_0000;
    assert(NUDGE_DEN * steps <= NUDGE_DEN * 0x8000_0000) by (nonlinear_arith)
        requires 0 < steps <= 0x8000_0000;
    assert(NUDGE_DEN * steps > 0) by (nonlinear_arith)
        requires 0 < steps;
    assert(f.den == NUDGE_DEN * steps);
    assert(f.bounded());
    lemma_round_bound(f.q as int, f.den as int, k);
    lemma_round_bound(f.r as int, f.den as int, k);
    lemma_round_bound(f.s as int, f.den as int, k);
}

} // verus!
