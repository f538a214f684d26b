//! Identity and duration primitives.

use vstd::prelude::*;

verus! {

/// Identifies a named span within a specific logical frame. Never reused
/// across different logical frames.
#[derive(Clone, Copy, PartialEq, Eq, Hash, Debug, Structural)]
pub struct ScopeId {
    pub frame: u32,
    pub scope: u32,
}

impl ScopeId {
    /// The reserved sentinel (all bits set) that marks unused slots of a
    /// correlation table.
    pub fn invalid() -> (r: ScopeId)
        ensures
            r == (ScopeId { frame: u32::MAX, scope: u32::MAX }),
    {
        ScopeId { frame: u32::MAX, scope: u32::MAX }
    }

    /// Packs the identity into one 64-bit word, frame field in the high half,
    /// so that it fits a single atomically written correlation cell.
    pub fn as_u64(self) -> (r: u64)
        ensures
            r == self.frame as int * 0x1_0000_0000 + self.scope as int,
    {
        (self.frame as u64) * 0x1_0000_0000u64 + (self.scope as u64)
    }

    /// Unpacks a 64-bit correlation cell back into the identity; inverse of
    /// `as_u64`.
    pub fn from_u64(v: u64) -> (r: ScopeId)
        ensures
            r.frame == v as int / 0x1_0000_0000,
            r.scope == v as int % 0x1_0000_0000,
    {
        proof {
            assert(v as int / 0x1_0000_0000 < 0x1_0000_0000) by (nonlinear_arith)
                requires v <= u64::MAX;
        }
        ScopeId { frame: (v / 0x1_0000_0000u64) as u32, scope: (v % 0x1_0000_0000u64) as u32 }
    }
}

/// A non-negative duration in nanoseconds. Tick subtraction that would
/// underflow saturates to zero instead of wrapping.
#[derive(Clone, Copy, PartialEq, Eq, Hash, Debug, Structural)]
pub struct NanoSecond(pub u64);

impl NanoSecond {
    pub fn from_raw_ns(ns: u64) -> (r: NanoSecond)
        ensures
            r.0 == ns,
    {
        NanoSecond(ns)
    }

    pub fn raw_ns(self) -> (r: u64)
        ensures
            r == self.0,
    {
        self.0
    }
}

} // verus!
