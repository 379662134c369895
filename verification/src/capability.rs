//! Capability and domain bit-sets.
//!
//! A `Capability` gates which operations may target or be performed by an
//! object; a `Domain` partitions objects into up to 16 logical compartments.
//! Both are flat fixed-width bit-sets with an explicit containment predicate.

use vstd::prelude::*;

verus! {

/// Capability bit granting permission to export an object under a wrap key.
pub const EXPORTABLE_UNDER_WRAP: u64 = 0x10000;

/// A set of permission bits.
#[derive(Clone, Copy, Debug, PartialEq, Eq, Structural)]
pub struct Capability {
    pub bits: u64,
}

impl Capability {
    /// The empty capability set.
    pub fn none() -> (r: Capability)
        ensures
            r.bits == 0,
    {
        Capability { bits: 0 }
    }

    /// The full capability set: every bit granted.
    pub fn all() -> (r: Capability)
        ensures
            r.bits == 0xffff_ffff_ffff_ffffu64,
    {
        Capability { bits: 0xffff_ffff_ffff_ffffu64 }
    }

    /// A capability set with exactly the given bits.
    pub fn new(bits: u64) -> (r: Capability)
        ensures
            r.bits == bits,
    {
        Capability { bits }
    }

    /// Does this set contain every bit of `mask`?
    pub open spec fn spec_contains(self, mask: u64) -> bool {
        self.bits & mask == mask
    }

    /// Runtime containment test for a bit mask.
    pub fn contains(&self, mask: u64) -> (r: bool)
        ensures
            r == self.spec_contains(mask),
    {
        self.bits & mask == mask
    }

    /// The union of two capability sets.
    pub fn union(&self, other: &Capability) -> (r: Capability)
        ensures
            r.bits == (self.bits | other.bits),
    {
        Capability { bits: self.bits | other.bits }
    }
}

/// A set of domain bits: one bit per logical compartment, 16 in all.
#[derive(Clone, Copy, Debug, PartialEq, Eq, Structural)]
pub struct Domain {
    pub bits: u16,
}

impl Domain {
    /// The full domain set: all 16 compartments.
    pub fn all() -> (r: Domain)
        ensures
            r.bits == 0xffffu16,
    {
        Domain { bits: 0xffffu16 }
    }

    /// A domain set with exactly the given bits.
    pub fn new(bits: u16) -> (r: Domain)
        ensures
            r.bits == bits,
    {
        Domain { bits }
    }

    /// Does this set contain every bit of `mask`?
    pub open spec fn spec_contains(self, mask: u16) -> bool {
        self.bits & mask == mask
    }

    /// Runtime containment test for a bit mask.
    pub fn contains(&self, mask: u16) -> (r: bool)
        ensures
            r == self.spec_contains(mask),
    {
        self.bits & mask == mask
    }
}

} // verus!
