//! Bounded wrapper values: construction is the only way to obtain one, and
//! construction enforces the range invariant.

use vstd::prelude::*;

verus! {

/// The number of per-mille units that stand for the value 1.0.
pub const VALUE_SCALE: i64 = 1000;

/// A normalized value in [0, 1], held in per-mille units (0 ..= 1000).
#[derive(Debug, Clone, Copy, PartialEq, Eq, Structural)]
pub struct NormalizedValue {
    permille: u32,
}

impl NormalizedValue {
    /// The per-mille units this value holds.
    pub closed spec fn spec_get(self) -> u32 {
        self.permille
    }

    /// The value holding the given per-mille units; the specification-level
    /// counterpart of `new`.
    pub closed spec fn from_permille(p: nat) -> NormalizedValue {
        NormalizedValue { permille: p as u32 }
    }

    #[verifier::type_invariant]
    pub closed spec fn inv(self) -> bool {
        self.permille <= 1000
    }

    /// Constructs a normalized value from per-mille units; succeeds exactly
    /// when the requested value lies in [0, 1].
    pub fn new(v: i64) -> (r: Option<NormalizedValue>)
        ensures
            r is Some <==> 0 <= v <= 1000,
            r is Some ==> r->0 == NormalizedValue::from_permille(v as nat),
            r is Some ==> r->0.spec_get() == v,
    {
        if 0 <= v && v <= 1000 {
            Some(NormalizedValue { permille: v as u32 })
        } else {
            None
        }
    }

    /// The value in per-mille units, always at most 1000.
    pub fn get(&self) -> (r: u32)
        ensures
            r == self.spec_get(),
            r <= 1000,
    {
        proof {
            use_type_invariant(self);
        }
        self.permille
    }
}

/// A positive (non-zero) option index.
#[derive(Debug, Clone, Copy, PartialEq, Eq, Structural)]
pub struct PositiveIndex {
    value: usize,
}

impl PositiveIndex {
    /// The index this wrapper holds.
    pub closed spec fn spec_get(self) -> usize {
        self.value
    }

    /// The index holding the given value; the specification-level
    /// counterpart of `new`.
    pub closed spec fn from_value(v: nat) -> PositiveIndex {
        PositiveIndex { value: v as usize }
    }

    #[verifier::type_invariant]
    pub closed spec fn inv(self) -> bool {
        self.value >= 1
    }

    /// Constructs a positive index; succeeds exactly when the value is non-zero.
    pub fn new(v: usize) -> (r: Option<PositiveIndex>)
        ensures
            r is Some <==> v >= 1,
            r is Some ==> r->0 == PositiveIndex::from_value(v as nat),
            r is Some ==> r->0.spec_get() == v,
    {
        if v >= 1 {
            Some(PositiveIndex { value: v })
        } else {
            None
        }
    }

    /// The index value, always at least 1.
    pub fn get(&self) -> (r: usize)
        ensures
            r == self.spec_get(),
            r >= 1,
    {
        proof {
            use_type_invariant(self);
        }
        self.value
    }
}

} // verus!
