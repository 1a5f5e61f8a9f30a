use vstd::prelude::*;

use crate::hex::{in_i32, Hex};

verus! {

/// `(q + q % 2) / 2` with Rust's truncating `%` and `/`: half of `q`, an odd
/// value rounded away from zero.
pub open spec fn shove(q: int) -> int {
    if q >= 0 {
        (q + q % 2) / 2
    } else {
        -((-q + (-q) % 2) / 2)
    }
}

/// Executable `shove` on an `i32`.
pub fn shove_exec(q: i32) -> (h: i32)
    ensures
        h == shove(q as int),
{
    let v = q as i64;
    if v >= 0 {
        ((v + v % 2) / 2) as i32
    } else {
        let w = -v;
        (-((w + w % 2) / 2)) as i32
    }
}

/// A column/row coordinate; odd columns are shoved by half a row.
#[derive(Clone, Copy, Debug, PartialEq, Eq, Hash, Structural)]
pub struct Offset {
    pub col: i32,
    pub row: i32,
}

impl Offset {
    /// The cube coordinate of this offset coordinate:
    /// `q = col`, `r = row - (col + col % 2) / 2`, `s = -q - r`.
    pub open spec fn to_hex_spec(self) -> Hex {
        let r = self.row - shove(self.col as int);
        Hex { q: self.col, r: r as i32, s: (-self.col - r) as i32 }
    }

    /// True when the conversion to a cube coordinate does not overflow.
    pub open spec fn can_convert(self) -> bool {
        let r = self.row - shove(self.col as int);
        in_i32(r) && in_i32(-self.col - r)
    }

    /// The cube coordinate of this offset coordinate; the inverse of
    /// `Hex::to_offset`.
    pub fn to_hex(self) -> (h: Hex)
        requires
            self.can_convert(),
        ensures
            h == self.to_hex_spec(),
            h.wf(),
    {
        let half = shove_exec(self.col);
        let r = self.row - half;
        let s = -(self.col as i64) - r as i64;
        Hex { q: self.col, r, s: s as i32 }
    }
}

/// Converting a well-formed cube coordinate to an offset coordinate and back
/// gives the coordinate itself.
pub proof fn lemma_offset_round_trip(h: Hex)
    requires
        h.wf(),
        in_i32(h.r + shove(h.q as int)),
    ensures
        h.to_offset_spec().can_convert(),
        h.to_offset_spec().to_hex_spec() == h,
{
}

/// Converting an offset coordinate to a cube coordinate and back gives the
/// offset coordinate itself.
pub proof fn lemma_hex_round_trip(o: Offset)
    requires
        o.can_convert(),
    ensures
        o.to_hex_spec().to_offset_spec() == o,
{
}

impl core::ops::Add for Offset {
    type Output = Offset;

    /// Componentwise sum of columns and rows. This is not addition in cube
    /// space: converting the sum differs in general from adding the converted
    /// coordinates.
    fn add(self, rhs: Offset) -> (o: Offset)
        ensures
            o.col == self.col + rhs.col,
            o.row == self.row + rhs.row,
    {
        Offset { col: self.col + rhs.col, row: self.row + rhs.row }
    }
}

impl vstd::std_specs::ops::AddSpecImpl for Offset {
    open spec fn obeys_add_spec() -> bool {
        true
    }

    open spec fn add_req(self, rhs: Offset) -> bool {
        in_i32(self.col + rhs.col) && in_i32(self.row + rhs.row)
    }

    open spec fn add_spec(self, rhs: Offset) -> Offset {
        Offset { col: (self.col + rhs.col) as i32, row: (self.row + rhs.row) as i32 }
    }
}

} // verus!
