//! Binary floating-point values carried by their bit pattern.
use vstd::prelude::*;

verus! {

/// An IEEE 754 binary64 value, held as its bit pattern. The library copies such values and tests
/// their sign and class; it never computes with them.
#[derive(Debug, Clone, Copy, Default)]
pub struct Float64 {
    pub bits: u64,
}

/// The bit pattern of positive infinity: every pattern below it, other than zero, is a finite
/// number greater than zero.
pub const INFINITY_BITS: u64 = 0x7FF0_0000_0000_0000;

impl Float64 {
    /// True for the finite numbers that are greater than zero: sign bit clear, exponent field not
    /// all ones, and not the zero pattern.
    pub open spec fn is_positive_finite(self) -> bool {
        0 < self.bits < INFINITY_BITS
    }

    /// True for the numbers that are neither infinite nor undefined: exponent field not all ones.
    pub open spec fn is_finite(self) -> bool {
        self.bits % 0x8000_0000_0000_0000 < INFINITY_BITS
    }

    /// Whether the value is a finite number.
    pub fn finite(self) -> (r: bool)
        ensures
            r == self.is_finite(),
    {
        self.bits % 0x8000_0000_0000_0000 < INFINITY_BITS
    }

    /// True for the two patterns that stand for zero.
    pub open spec fn is_zero(self) -> bool {
        self.bits % 0x8000_0000_0000_0000 == 0
    }

    /// True for the patterns that stand for no number: exponent field all ones, and a fraction that
    /// is not zero.
    pub open spec fn is_nan(self) -> bool {
        self.bits % 0x8000_0000_0000_0000 > INFINITY_BITS
    }

    /// Positive zero.
    pub fn zero() -> (r: Self)
        ensures
            r.bits == 0,
    {
        Float64 { bits: 0 }
    }

    /// The value whose bit pattern is `bits`.
    pub fn from_bits(bits: u64) -> (r: Self)
        ensures
            r.bits == bits,
    {
        Float64 { bits }
    }

    /// Whether the value is finite and greater than zero.
    pub fn positive_finite(self) -> (r: bool)
        ensures
            r == self.is_positive_finite(),
    {
        0 < self.bits && self.bits < INFINITY_BITS
    }
}

/// Two values are equal as numbers: no pattern that is no number equals anything, and the two zeros
/// equal each other.
impl PartialEq for Float64 {
    fn eq(&self, other: &Self) -> (r: bool) {
        let a: u64 = self.bits % 0x8000_0000_0000_0000;
        let b: u64 = other.bits % 0x8000_0000_0000_0000;
        a <= INFINITY_BITS && b <= INFINITY_BITS && (self.bits == other.bits || (a == 0 && b == 0))
    }
}

impl vstd::std_specs::cmp::PartialEqSpecImpl for Float64 {
    open spec fn obeys_eq_spec() -> bool {
        true
    }

    open spec fn eq_spec(&self, other: &Self) -> bool {
        &&& !self.is_nan()
        &&& !other.is_nan()
        &&& self.bits == other.bits || (self.is_zero() && other.is_zero())
    }
}

} // verus!
