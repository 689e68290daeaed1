//! The numeric capability that matrix elements must provide.

use vstd::prelude::*;

verus! {

/// An element type with an additive identity (zero) and a multiplicative
/// identity (one), copied by value: mutating one copy never affects another.
///
/// The two spec functions name the identities as mathematical values; the
/// two executable functions produce them and are bound to those names by
/// their contracts.
pub trait Numeric: Sized + Copy {
    /// The additive identity, as a mathematical value.
    spec fn zero_spec() -> Self;

    /// The multiplicative identity, as a mathematical value.
    spec fn one_spec() -> Self;

    /// Returns the additive identity.
    fn zero() -> (z: Self)
        ensures
            z == Self::zero_spec(),
    ;

    /// Returns the multiplicative identity.
    fn one() -> (o: Self)
        ensures
            o == Self::one_spec(),
    ;
}

impl Numeric for i32 {
    open spec fn zero_spec() -> i32 {
        0
    }

    open spec fn one_spec() -> i32 {
        1
    }

    fn zero() -> i32 {
        0
    }

    fn one() -> i32 {
        1
    }
}

impl Numeric for i64 {
    open spec fn zero_spec() -> i64 {
        0
    }

    open spec fn one_spec() -> i64 {
        1
    }

    fn zero() -> i64 {
        0
    }

    fn one() -> i64 {
        1
    }
}

impl Numeric for u32 {
    open spec fn zero_spec() -> u32 {
        0
    }

    open spec fn one_spec() -> u32 {
        1
    }

    fn zero() -> u32 {
        0
    }

    fn one() -> u32 {
        1
    }
}

impl Numeric for u64 {
    open spec fn zero_spec() -> u64 {
        0
    }

    open spec fn one_spec() -> u64 {
        1
    }

    fn zero() -> u64 {
        0
    }

    fn one() -> u64 {
        1
    }
}

impl Numeric for usize {
    open spec fn zero_spec() -> usize {
        0
    }

    open spec fn one_spec() -> usize {
        1
    }

    fn zero() -> usize {
        0
    }

    fn one() -> usize {
        1
    }
}

} // verus!
