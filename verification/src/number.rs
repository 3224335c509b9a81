use vstd::prelude::*;

verus! {

/// The field elements that the polynomials of a PIL file range over.
pub trait FieldElement: Copy + Sized {
    /// The element that the integer `v` stands for.
    spec fn from_u32_spec(v: u32) -> Self;

    /// Returns the element that the integer `v` stands for.
    fn from_u32(v: u32) -> (r: Self)
        ensures
            r == Self::from_u32_spec(v),
    ;

    /// Returns true if `self` and `other` are the same element.
    fn equals(&self, other: &Self) -> (r: bool)
        ensures
            r == (*self == *other),
    ;
}

/// Field elements held as plain 64-bit integers.
impl FieldElement for u64 {
    open spec fn from_u32_spec(v: u32) -> u64 {
        v as u64
    }

    fn from_u32(v: u32) -> (r: u64) {
        v as u64
    }

    fn equals(&self, other: &u64) -> (r: bool) {
        *self == *other
    }
}

} // verus!
