use vstd::prelude::*;

use crate::hex::{in_i32, Hex};
use crate::offset::{shove, Offset};
use crate::tile::{fresh_tile, Tile};

verus! {

/// `a` comes before `b` when ordered by `q`, then by `r`.
pub open spec fn lex_before(a: Hex, b: Hex) -> bool {
    a.q < b.q || (a.q == b.q && a.r < b.r)
}

/// `(q, r)` comes before the position `(q0, r0)` of a scan.
pub open spec fn scanned(x: Hex, q0: int, r0: int) -> bool {
    x.q < q0 || (x.q == q0 && x.r < r0)
}

/// The sequence is strictly increasing by `(q, r)`.
pub open spec fn lex_sorted(v: Seq<Hex>) -> bool {
    forall|i: int, j: int| 0 <= i < j < v.len() ==> lex_before(#[trigger] v[i], #[trigger] v[j])
}

/// A strictly increasing sequence holds no element twice.
pub proof fn lemma_sorted_no_duplicates(v: Seq<Hex>)
    requires
        lex_sorted(v),
    ensures
        v.no_duplicates(),
{
    assert forall|i: int, j: int| 0 <= i < v.len() && 0 <= j < v.len() && i != j implies v[i]
        != v[j] by {
        if i < j {
            assert(lex_before(v[i], v[j]));
        } else {
            assert(lex_before(v[j], v[i]));
        }
    }
}

/// The well-formed coordinates at most `n` steps from the origin.
pub open spec fn within(x: Hex, n: int) -> bool {
    x.wf() && x.length_spec() <= n
}

/// For a well-formed coordinate, being within `n` steps is the diamond
/// intersection `-n <= q <= n`, `max(-n, -q-n) <= r <= min(n, -q+n)`.
pub proof fn lemma_within_box(x: Hex, n: int)
    requires
        x.wf(),
    ensures
        within(x, n) <==> (-n <= x.q <= n && -n <= x.r <= n && -x.q - n <= x.r <= -x.q + n),
{
}

/// Appending `e` keeps what was there and adds `e`.
proof fn lemma_push_contains(v: Seq<Hex>, e: Hex, x: Hex)
    ensures
        v.push(e).contains(x) <==> (v.contains(x) || x == e),
{
    if v.contains(x) {
        let i = choose|i: int| 0 <= i < v.len() && v[i] == x;
        assert(v.push(e)[i] == x);
    }
    if x == e {
        assert(v.push(e)[v.len() as int] == x);
    }
    if v.push(e).contains(x) {
        let i = choose|i: int| 0 <= i < v.len() + 1 && v.push(e)[i] == x;
        if i < v.len() {
            assert(v[i] == x);
        }
    }
}

/// All coordinates within `radius` steps of the origin, each once, ordered by
/// `(q, r)`. A negative radius gives no coordinate.
pub fn make_hexagon(radius: i32) -> (v: Vec<Hex>)
    ensures
        forall|x: Hex| v@.contains(x) <==> within(x, radius as int),
        v@.no_duplicates(),
        lex_sorted(v@),
{
    let mut v: Vec<Hex> = Vec::new();
    let n = radius as i64;
    let mut q: i64 = -n;
    while q <= n
        invariant
            n == radius,
            n >= 0 ==> -n <= q <= n + 1,
            n < 0 ==> q == -n && v@.len() == 0,
            lex_sorted(v@),
            forall|i: int| 0 <= i < v@.len() ==> (#[trigger] v@[i]).q < q,
            forall|i: int| 0 <= i < v@.len() ==> within(#[trigger] v@[i], n as int),
            forall|x: Hex| within(x, n as int) && x.q < q ==> #[trigger] v@.contains(x),
        decreases n + 1 - q,
    {
        let r_min: i64 = if -n > -q - n { -n } else { -q - n };
        let r_max: i64 = if n < -q + n { n } else { -q + n };
        let mut r: i64 = r_min;
        while r <= r_max
            invariant
                n == radius,
                -n <= q <= n,
                r_min as int == if -n > -q - n { -n as int } else { -q - n },
                r_max as int == if n < -q + n { n as int } else { -q + n },
                r_min <= r <= r_max + 1 || r_max < r_min,
                r_max < r_min ==> r == r_min,
                lex_sorted(v@),
                forall|i: int| 0 <= i < v@.len() ==> scanned(#[trigger] v@[i], q as int, r as int),
                forall|i: int| 0 <= i < v@.len() ==> within(#[trigger] v@[i], n as int),
                forall|x: Hex|
                    within(x, n as int) && scanned(x, q as int, r as int) ==> #[trigger] v@.contains(
                        x,
                    ),
            decreases r_max + 1 - r,
        {
            let h = Hex::new(q as i32, r as i32, (-q - r) as i32);
            proof {
                lemma_within_box(h, n as int);
                assert forall|x: Hex|
                    within(x, n as int) && scanned(x, q as int, r + 1) implies #[trigger] v@.push(
                        h,
                    ).contains(x) by {
                    lemma_push_contains(v@, h, x);
                    if !scanned(x, q as int, r as int) {
                        assert(x.q == h.q && x.r == h.r);
                    }
                }
            }
            v.push(h);
            r = r + 1;
        }
        proof {
            assert forall|x: Hex| within(x, n as int) && x.q < q + 1 implies #[trigger] v@.contains(x) by {
                lemma_within_box(x, n as int);
                assert(scanned(x, q as int, r as int));
            }
        }
        q = q + 1;
    }
    proof {
        assert forall|x: Hex| #[trigger] v@.contains(x) implies within(x, radius as int) by {
            let i = choose|i: int| 0 <= i < v@.len() && v@[i] == x;
        }
        assert forall|x: Hex| within(x, radius as int) implies #[trigger] v@.contains(x) by {
            lemma_within_box(x, n as int);
        }
        lemma_sorted_no_duplicates(v@);
    }
    v
}


/// The well-formed coordinates with `0 <= q < width` and `0 <= r < height`.
pub open spec fn in_parallelogram(x: Hex, width: int, height: int) -> bool {
    x.wf() && 0 <= x.q < width && 0 <= x.r < height
}

/// All `(q, r, -q-r)` with `0 <= q < width` and `0 <= r < height`, each once,
/// ordered by `(q, r)`.
pub fn make_parallelogram(width: i32, height: i32) -> (v: Vec<Hex>)
    requires
        width <= 0 || height <= 0 || in_i32(2 - width - height),
    ensures
        forall|x: Hex| v@.contains(x) <==> in_parallelogram(x, width as int, height as int),
        v@.no_duplicates(),
        lex_sorted(v@),
{
    let mut v: Vec<Hex> = Vec::new();
    let mut q: i32 = 0;
    while q < width
        invariant
            0 <= q,
            q <= width || width <= 0,
            width <= 0 || height <= 0 || in_i32(2 - width - height),
            lex_sorted(v@),
            forall|i: int| 0 <= i < v@.len() ==> (#[trigger] v@[i]).q < q,
            forall|i: int|
                0 <= i < v@.len() ==> in_parallelogram(#[trigger] v@[i], width as int, height as int),
            forall|x: Hex|
                in_parallelogram(x, width as int, height as int) && x.q < q
                    ==> #[trigger] v@.contains(x),
        decreases width - q,
    {
        let mut r: i32 = 0;
        while r < height
            invariant
                0 <= q < width,
                0 <= r,
                r <= height || height <= 0,
                width <= 0 || height <= 0 || in_i32(2 - width - height),
                lex_sorted(v@),
                forall|i: int| 0 <= i < v@.len() ==> scanned(#[trigger] v@[i], q as int, r as int),
                forall|i: int|
                    0 <= i < v@.len() ==> in_parallelogram(
                        #[trigger] v@[i],
                        width as int,
                        height as int,
                    ),
                forall|x: Hex|
                    in_parallelogram(x, width as int, height as int) && scanned(
                        x,
                        q as int,
                        r as int,
                    ) ==> #[trigger] v@.contains(x),
            decreases height - r,
        {
            let h = Hex::new(q, r, -q - r);
            proof {
                assert forall|x: Hex|
                    in_parallelogram(x, width as int, height as int) && scanned(
                        x,
                        q as int,
                        r + 1,
                    ) implies #[trigger] v@.push(h).contains(x) by {
                    lemma_push_contains(v@, h, x);
                }
            }
            v.push(h);
            r = r + 1;
        }
        proof {
            assert forall|x: Hex|
                in_parallelogram(x, width as int, height as int) && x.q < q + 1 implies #[trigger] v@.contains(x) by {
                assert(scanned(x, q as int, r as int));
            }
        }
        q = q + 1;
    }
    proof {
        assert forall|x: Hex| #[trigger] v@.contains(x) implies in_parallelogram(
            x,
            width as int,
            height as int,
        ) by {
            let i = choose|i: int| 0 <= i < v@.len() && v@[i] == x;
        }
        lemma_sorted_no_duplicates(v@);
    }
    v
}

/// The well-formed coordinates with `0 <= q <= size` and `size - q <= r <= size`.
pub open spec fn in_triangle(x: Hex, size: int) -> bool {
    x.wf() && 0 <= x.q <= size && size - x.q <= x.r <= size
}

/// All `(q, r, -q-r)` with `0 <= q <= size` and `size - q <= r <= size`, each
/// once, ordered by `(q, r)`.
pub fn make_triangle(size: i32) -> (v: Vec<Hex>)
    requires
        size < 0 || in_i32(-2 * size),
    ensures
        forall|x: Hex| v@.contains(x) <==> in_triangle(x, size as int),
        v@.no_duplicates(),
        lex_sorted(v@),
{
    let mut v: Vec<Hex> = Vec::new();
    let n = size as i64;
    let mut q: i64 = 0;
    while q <= n
        invariant
            n == size,
            size < 0 || in_i32(-2 * size),
            0 <= q,
            q <= n + 1 || n < 0,
            lex_sorted(v@),
            forall|i: int| 0 <= i < v@.len() ==> (#[trigger] v@[i]).q < q,
            forall|i: int| 0 <= i < v@.len() ==> in_triangle(#[trigger] v@[i], n as int),
            forall|x: Hex| in_triangle(x, n as int) && x.q < q ==> #[trigger] v@.contains(x),
        decreases n + 1 - q,
    {
        let mut r: i64 = n - q;
        while r <= n
            invariant
                n == size,
                size < 0 || in_i32(-2 * size),
                0 <= q <= n,
                n - q <= r <= n + 1,
                lex_sorted(v@),
                forall|i: int| 0 <= i < v@.len() ==> scanned(#[trigger] v@[i], q as int, r as int),
                forall|i: int| 0 <= i < v@.len() ==> in_triangle(#[trigger] v@[i], n as int),
                forall|x: Hex|
                    in_triangle(x, n as int) && scanned(x, q as int, r as int)
                        ==> #[trigger] v@.contains(x),
            decreases n + 1 - r,
        {
            let h = Hex::new(q as i32, r as i32, (-q - r) as i32);
            proof {
                assert forall|x: Hex|
                    in_triangle(x, n as int) && scanned(x, q as int, r + 1) implies #[trigger] v@.push(
                        h,
                    ).contains(x) by {
                    lemma_push_contains(v@, h, x);
                }
            }
            v.push(h);
            r = r + 1;
        }
        proof {
            assert forall|x: Hex| in_triangle(x, n as int) && x.q < q + 1 implies #[trigger] v@.contains(x) by {
                assert(scanned(x, q as int, r as int));
            }
        }
        q = q + 1;
    }
    proof {
        assert forall|x: Hex| #[trigger] v@.contains(x) implies in_triangle(x, size as int) by {
            let i = choose|i: int| 0 <= i < v@.len() && v@[i] == x;
        }
        lemma_sorted_no_duplicates(v@);
    }
    v
}

/// The well-formed coordinates whose offset coordinate has
/// `0 <= col <= width` and `0 <= row <= height`.
pub open spec fn in_rectangle(x: Hex, width: int, height: int) -> bool {
    x.wf() && 0 <= x.q <= width && 0 <= x.r + shove(x.q as int) <= height
}

/// The cube coordinates of all offset coordinates `(col, row)` with
/// `0 <= col <= width` and `0 <= row <= height`, each once, ordered by `(q, r)`.
pub fn make_rectangle(width: i32, height: i32) -> (v: Vec<Hex>)
    requires
        width < 0 || height < 0 || in_i32(shove(width as int) - width - height),
    ensures
        forall|x: Hex| v@.contains(x) <==> in_rectangle(x, width as int, height as int),
        v@.no_duplicates(),
        lex_sorted(v@),
{
    let mut v: Vec<Hex> = Vec::new();
    if height < 0 {
        proof {
            assert forall|x: Hex| #[trigger] v@.contains(x) <==> in_rectangle(
                x,
                width as int,
                height as int,
            ) by {}
        }
        return v;
    }
    let w = width as i64;
    let mut col: i64 = 0;
    while col <= w
        invariant
            w == width,
            height >= 0,
            width < 0 || in_i32(shove(width as int) - width - height),
            0 <= col,
            col <= w + 1 || w < 0,
            lex_sorted(v@),
            forall|i: int| 0 <= i < v@.len() ==> (#[trigger] v@[i]).q < col,
            forall|i: int|
                0 <= i < v@.len() ==> in_rectangle(#[trigger] v@[i], width as int, height as int),
            forall|x: Hex|
                in_rectangle(x, width as int, height as int) && x.q < col
                    ==> #[trigger] v@.contains(x),
        decreases w + 1 - col,
    {
        let mut row: i64 = 0;
        let ghost sh = shove(col as int);
        while row <= height as i64
            invariant
                w == width,
                height >= 0,
                in_i32(shove(width as int) - width - height),
                0 <= col <= w,
                sh == shove(col as int),
                0 <= row <= height + 1,
                lex_sorted(v@),
                forall|i: int|
                    0 <= i < v@.len() ==> scanned(#[trigger] v@[i], col as int, row - sh),
                forall|i: int|
                    0 <= i < v@.len() ==> in_rectangle(
                        #[trigger] v@[i],
                        width as int,
                        height as int,
                    ),
                forall|x: Hex|
                    in_rectangle(x, width as int, height as int) && scanned(
                        x,
                        col as int,
                        row - sh,
                    ) ==> #[trigger] v@.contains(x),
            decreases height + 1 - row,
        {
            proof {
                assert(0 <= shove(col as int) <= col);
                assert(shove(width as int) - width <= shove(col as int) - col);
            }
            let o = Offset { col: col as i32, row: row as i32 };
            let h = o.to_hex();
            proof {
                assert forall|x: Hex|
                    in_rectangle(x, width as int, height as int) && scanned(
                        x,
                        col as int,
                        row + 1 - sh,
                    ) implies #[trigger] v@.push(h).contains(x) by {
                    lemma_push_contains(v@, h, x);
                }
            }
            v.push(h);
            row = row + 1;
        }
        proof {
            assert forall|x: Hex|
                in_rectangle(x, width as int, height as int) && x.q < col + 1 implies #[trigger] v@.contains(x) by {
                assert(scanned(x, col as int, height + 1 - sh));
            }
        }
        col = col + 1;
    }
    proof {
        assert forall|x: Hex| #[trigger] v@.contains(x) implies in_rectangle(
            x,
            width as int,
            height as int,
        ) by {
            let i = choose|i: int| 0 <= i < v@.len() && v@[i] == x;
        }
        lemma_sorted_no_duplicates(v@);
    }
    v
}


/// A mapping from coordinates to tiles, each coordinate at most once.
pub struct HexMap {
    entries: Vec<(Hex, Tile)>,
}

impl HexMap {
    /// The entries of the map, in the order they were added.
    pub closed spec fn entries(&self) -> Seq<(Hex, Tile)> {
        self.entries@
    }

    /// No coordinate is a key twice.
    pub open spec fn wf(&self) -> bool {
        forall|i: int, j: int|
            0 <= i < j < self.entries().len() ==> (#[trigger] self.entries()[i]).0
                != (#[trigger] self.entries()[j]).0
    }

    /// The map holds a tile at `hex`.
    pub open spec fn contains_key(&self, hex: Hex) -> bool {
        exists|i: int| 0 <= i < self.entries().len() && (#[trigger] self.entries()[i]).0 == hex
    }

    /// Number of coordinates in the map.
    pub fn len(&self) -> (n: usize)
        ensures
            n == self.entries().len(),
    {
        self.entries.len()
    }

    /// The tile at `hex`, if the map holds one.
    pub fn get(&self, hex: &Hex) -> (t: Option<Tile>)
        requires
            self.wf(),
        ensures
            t is None <==> !self.contains_key(*hex),
            t matches Some(tile) ==> exists|i: int|
                0 <= i < self.entries().len() && #[trigger] self.entries()[i] == (*hex, tile),
    {
        let mut i: usize = 0;
        while i < self.entries.len()
            invariant
                0 <= i <= self.entries@.len(),
                forall|j: int| 0 <= j < i ==> (#[trigger] self.entries@[j]).0 != *hex,
            decreases self.entries@.len() - i,
        {
            let (k, tile) = self.entries[i];
            if k == *hex {
                proof {
                    assert(self.entries()[i as int] == (*hex, tile));
                }
                return Some(tile);
            }
            i = i + 1;
        }
        None
    }
}

/// A map with a fresh tile at each coordinate of `hex_set`, in its order.
pub fn hex_map_from_hex_set(hex_set: Vec<Hex>) -> (m: HexMap)
    requires
        hex_set@.no_duplicates(),
    ensures
        m.wf(),
        m.entries().len() == hex_set@.len(),
        forall|i: int|
            0 <= i < hex_set@.len() ==> #[trigger] m.entries()[i] == (
            hex_set@[i],
            fresh_tile(hex_set@[i]),
        ),
        forall|x: Hex| m.contains_key(x) <==> hex_set@.contains(x),
{
    let mut entries: Vec<(Hex, Tile)> = Vec::new();
    let mut i: usize = 0;
    while i < hex_set.len()
        invariant
            0 <= i <= hex_set@.len(),
            entries@.len() == i,
            forall|j: int|
                0 <= j < i ==> #[trigger] entries@[j] == (hex_set@[j], fresh_tile(hex_set@[j])),
        decreases hex_set@.len() - i,
    {
        let hex = hex_set[i];
        entries.push((hex, Tile::new(hex)));
        i = i + 1;
    }
    let m = HexMap { entries };
    proof {
        assert forall|x: Hex| m.contains_key(x) implies hex_set@.contains(x) by {
            let j = choose|j: int| 0 <= j < m.entries().len() && (#[trigger] m.entries()[j]).0 == x;
            assert(hex_set@[j] == x);
        }
        assert forall|x: Hex| hex_set@.contains(x) implies m.contains_key(x) by {
            let j = choose|j: int| 0 <= j < hex_set@.len() && hex_set@[j] == x;
            assert(m.entries()[j].0 == x);
        }
    }
    m
}

} // verus!
