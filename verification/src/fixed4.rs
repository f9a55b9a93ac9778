//! Exact decimal amounts with four fractional digits.

use vstd::prelude::*;

verus! {

/// Whether a mathematical integer is representable as a scaled amount.
pub open spec fn fits(x: int) -> bool {
    i64::MIN <= x <= i64::MAX
}

/// An exact decimal amount, held as a signed count of ten-thousandths.
///
/// The representable range is -922337203685477.5808 to 922337203685477.5807.
#[derive(Clone, Copy, Debug, PartialEq, Eq, PartialOrd, Ord, Hash, Structural)]
pub struct Fixed4(pub i64);

impl View for Fixed4 {
    type V = int;

    /// The amount as a count of ten-thousandths.
    open spec fn view(&self) -> int {
        self.0 as int
    }
}

impl Fixed4 {
    /// The amount zero, the floor for "must be positive" checks.
    pub fn zero() -> (r: Fixed4)
        ensures
            r@ == 0,
    {
        Fixed4(0)
    }

    /// The amount that holds `scaled` ten-thousandths.
    pub fn from_scaled(scaled: i64) -> (r: Fixed4)
        ensures
            r@ == scaled,
    {
        Fixed4(scaled)
    }

    /// The amount as a count of ten-thousandths.
    pub fn scaled(self) -> (r: i64)
        ensures
            r == self@,
    {
        self.0
    }

    /// The exact sum, or `None` where it leaves the representable range.
    pub fn checked_add(self, other: Fixed4) -> (r: Option<Fixed4>)
        ensures
            fits(self@ + other@) ==> r is Some && r->Some_0@ == self@ + other@,
            !fits(self@ + other@) ==> r is None,
    {
        match self.0.checked_add(other.0) {
            Some(v) => Some(Fixed4(v)),
            None => None,
        }
    }

    /// The exact difference, or `None` where it leaves the representable range.
    pub fn checked_sub(self, other: Fixed4) -> (r: Option<Fixed4>)
        ensures
            fits(self@ - other@) ==> r is Some && r->Some_0@ == self@ - other@,
            !fits(self@ - other@) ==> r is None,
    {
        match self.0.checked_sub(other.0) {
            Some(v) => Some(Fixed4(v)),
            None => None,
        }
    }

    /// Whether `self` is strictly below `other` in the order of the scaled integers.
    pub fn lt(self, other: Fixed4) -> (r: bool)
        ensures
            r == (self@ < other@),
    {
        self.0 < other.0
    }

    /// Whether `self` is at most `other` in the order of the scaled integers.
    pub fn le(self, other: Fixed4) -> (r: bool)
        ensures
            r == (self@ <= other@),
    {
        self.0 <= other.0
    }
}

} // verus!
