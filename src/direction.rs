use vstd::prelude::*;

use crate::hex::Hex;

verus! {

/// The unit step of direction `d` (for `0 <= d < 6`), in rotational order
/// starting from `(0, -1, 1)`.
pub open spec fn direction_vector(d: int) -> Hex {
    if d == 0 {
        Hex { q: 0, r: -1i32, s: 1 }
    } else if d == 1 {
        Hex { q: 1, r: -1i32, s: 0 }
    } else if d == 2 {
        Hex { q: 1, r: 0, s: -1i32 }
    } else if d == 3 {
        Hex { q: 0, r: 1, s: -1i32 }
    } else if d == 4 {
        Hex { q: -1i32, r: 1, s: 0 }
    } else {
        Hex { q: -1i32, r: 0, s: 1 }
    }
}

/// One of the six neighbour directions, as an index taken modulo 6.
#[derive(Clone, Copy, Debug, PartialEq, Eq, Hash, Structural)]
pub struct HexDirection(usize);

impl HexDirection {
    /// The index of this direction, in `0..6`.
    pub closed spec fn index(self) -> int {
        self.0 as int
    }

    /// Every value of the type holds an index below 6.
    pub closed spec fn wf(self) -> bool {
        self.0 < 6
    }

    /// The direction `direction mod 6`, normalised into `0..6` also for
    /// negative inputs.
    pub fn new(direction: i32) -> (d: HexDirection)
        ensures
            d.wf(),
            d.index() == direction as int % 6,
    {
        let v = direction as i64;
        let m: i64 = if v >= 0 {
            v % 6
        } else {
            let k: i64 = (-v) % 6;
            if k == 0 { 0 } else { 6 - k }
        };
        HexDirection(m as usize)
    }

    /// The raw index of this direction.
    pub fn value(&self) -> (i: usize)
        ensures
            i == self.index(),
    {
        self.0
    }

    /// The unit step that this direction stands for.
    pub fn to_hex(&self) -> (h: Hex)
        requires
            self.wf(),
        ensures
            h == direction_vector(self.index()),
            h.wf(),
            h.length_spec() == 1,
    {
        match self.0 {
            0 => Hex::new(0, -1, 1),
            1 => Hex::new(1, -1, 0),
            2 => Hex::new(1, 0, -1),
            3 => Hex::new(0, 1, -1),
            4 => Hex::new(-1, 1, 0),
            _ => Hex::new(-1, 0, 1),
        }
    }
}

impl core::ops::Add for HexDirection {
    type Output = HexDirection;

    /// Composes two rotations: the sum of the indices, modulo 6.
    fn add(self, rhs: HexDirection) -> (d: HexDirection)
        ensures
            d.wf(),
            d.index() == (self.index() + rhs.index()) % 6,
    {
        HexDirection((self.0 % 6 + rhs.0 % 6) % 6)
    }
}

impl vstd::std_specs::ops::AddSpecImpl for HexDirection {
    open spec fn obeys_add_spec() -> bool {
        true
    }

    open spec fn add_req(self, rhs: HexDirection) -> bool {
        true
    }

    closed spec fn add_spec(self, rhs: HexDirection) -> HexDirection {
        HexDirection(((self.0 + rhs.0) % 6) as usize)
    }
}

} // verus!
