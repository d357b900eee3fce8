//! Runtime values of a generated bitmask type: a fixed-width storage
//! value with the pure set-algebra surface every generated type exposes.

use vstd::prelude::*;

use crate::eval::{is_masked, spec_mask};

verus! {

/// One runtime value of a generated bitmask type: the storage bit
/// pattern together with the storage width in bits. Signed storage
/// shares this representation; its bits are the two's-complement
/// pattern.
#[derive(Clone, Copy, PartialEq, Eq, PartialOrd, Ord, Hash, Structural, Debug)]
pub struct Bitmask {
    pub bits: u128,
    pub width: u32,
}

impl Bitmask {
    /// A value is well formed when its width is a storage width and its
    /// bits stay inside that width.
    pub open spec fn wf(self) -> bool {
        &&& self.width <= 128
        &&& is_masked(self.bits, self.width as nat)
    }

    /// The full-width mask of this value: what `!0` denotes in its
    /// storage type.
    pub open spec fn full_mask(self) -> u128 {
        spec_mask(self.width as nat)
    }

    /// Returns the underlying bits of the bitmask.
    pub fn bits(&self) -> (b: u128)
        ensures
            b == self.bits,
    {
        self.bits
    }

    /// Returns `true` if the bitmask does not contain any values.
    pub fn is_none(&self) -> (r: bool)
        ensures
            r == (self.bits == 0),
    {
        self.bits == 0
    }

    /// Returns `true` if the bitmask contains all values, that is, if
    /// its bits are `!0` across the storage width.
    pub fn is_all_bits(&self) -> (r: bool)
        requires
            self.width <= 128,
        ensures
            r == (self.bits == self.full_mask()),
    {
        let m = crate::eval::mask_of(self.width);
        self.bits == m
    }

    /// Returns `true` if the bitmask contains all values. Kept for
    /// compatibility; use `is_all_bits`.
    pub fn is_all(&self) -> (r: bool)
        requires
            self.width <= 128,
        ensures
            r == (self.bits == self.full_mask()),
    {
        self.is_all_bits()
    }

    /// Returns `true` if the bitmask equals the given raw storage value.
    pub fn eq_bits(&self, other: u128) -> (r: bool)
        ensures
            r == (self.bits == other),
    {
        self.bits == other
    }

    /// Returns `true` if `self` intersects with any value in `other`,
    /// or if `other` does not contain any values.
    pub fn intersects(&self, other: Bitmask) -> (r: bool)
        ensures
            r == ((self.bits & other.bits) != 0 || other.bits == 0),
    {
        (self.bits & other.bits) != 0 || other.bits == 0
    }

    /// Returns `true` if `self` contains all values of `other`.
    pub fn contains(&self, other: Bitmask) -> (r: bool)
        ensures
            r == ((self.bits & other.bits) == other.bits),
    {
        (self.bits & other.bits) == other.bits
    }

    /// Returns the bitwise NOT of the bitmask, across the storage width.
    pub fn not(self) -> (r: Bitmask)
        requires
            self.wf(),
        ensures
            r.bits == self.bits ^ self.full_mask(),
            r.width == self.width,
            r.wf(),
    {
        let m = crate::eval::mask_of(self.width);
        proof {
            let b = self.bits;
            assert((b ^ m) & m == b ^ m) by (bit_vector)
                requires
                    b & m == b,
            ;
        }
        Bitmask { bits: self.bits ^ m, width: self.width }
    }

    /// Returns the bitwise AND of the bitmask.
    pub fn and(self, other: Bitmask) -> (r: Bitmask)
        requires
            self.wf(),
            other.width == self.width,
        ensures
            r.bits == self.bits & other.bits,
            r.width == self.width,
            r.wf(),
    {
        proof {
            let (a, b, m) = (self.bits, other.bits, self.full_mask());
            assert((a & b) & m == a & b) by (bit_vector)
                requires
                    a & m == a,
            ;
        }
        Bitmask { bits: self.bits & other.bits, width: self.width }
    }

    /// Returns the bitwise OR of the bitmask.
    pub fn or(self, other: Bitmask) -> (r: Bitmask)
        requires
            self.wf(),
            other.wf(),
            other.width == self.width,
        ensures
            r.bits == self.bits | other.bits,
            r.width == self.width,
            r.wf(),
    {
        proof {
            let (a, b, m) = (self.bits, other.bits, self.full_mask());
            assert((a | b) & m == a | b) by (bit_vector)
                requires
                    a & m == a,
                    b & m == b,
            ;
        }
        Bitmask { bits: self.bits | other.bits, width: self.width }
    }

    /// Returns the bitwise XOR of the bitmask.
    pub fn xor(self, other: Bitmask) -> (r: Bitmask)
        requires
            self.wf(),
            other.wf(),
            other.width == self.width,
        ensures
            r.bits == self.bits ^ other.bits,
            r.width == self.width,
            r.wf(),
    {
        proof {
            let (a, b, m) = (self.bits, other.bits, self.full_mask());
            assert((a ^ b) & m == a ^ b) by (bit_vector)
                requires
                    a & m == a,
                    b & m == b,
            ;
        }
        Bitmask { bits: self.bits ^ other.bits, width: self.width }
    }

    /// ANDs the bitmask in place.
    pub fn and_assign(&mut self, other: Bitmask)
        requires
            old(self).wf(),
            other.width == old(self).width,
        ensures
            final(self).bits == old(self).bits & other.bits,
            final(self).width == old(self).width,
            final(self).wf(),
    {
        *self = self.and(other);
    }

    /// ORs the bitmask in place.
    pub fn or_assign(&mut self, other: Bitmask)
        requires
            old(self).wf(),
            other.wf(),
            other.width == old(self).width,
        ensures
            final(self).bits == old(self).bits | other.bits,
            final(self).width == old(self).width,
            final(self).wf(),
    {
        *self = self.or(other);
    }

    /// XORs the bitmask in place.
    pub fn xor_assign(&mut self, other: Bitmask)
        requires
            old(self).wf(),
            other.wf(),
            other.width == old(self).width,
        ensures
            final(self).bits == old(self).bits ^ other.bits,
            final(self).width == old(self).width,
            final(self).wf(),
    {
        *self = self.xor(other);
    }
}

} // verus!
