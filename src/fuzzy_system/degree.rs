use vstd::prelude::*;

verus! {

/// The bit pattern of the double-precision number `1.0`.
pub const ONE_BITS: u64 = 0x3FF0_0000_0000_0000;

/// A membership degree in `[0, 1]`, held as the IEEE-754 bit pattern of the
/// double that carries it.
///
/// For non-negative doubles the numeric order is the order of the bit
/// patterns, so the minimum and the maximum, which are all that rule
/// evaluation and aggregation take of degrees, are exact on this form.
#[derive(Clone, Copy, Debug, PartialEq, Eq, Structural)]
pub struct Degree {
    pub bits: u64,
}

/// The smaller of two degrees (the first on a tie).
pub open spec fn min_degree(a: Degree, b: Degree) -> Degree {
    if a.bits <= b.bits { a } else { b }
}

/// The larger of two degrees (the first on a tie).
pub open spec fn max_degree(a: Degree, b: Degree) -> Degree {
    if a.bits >= b.bits { a } else { b }
}

impl Degree {
    /// A degree lies in `[0, 1]`: its pattern is at most that of `1.0`.
    /// This leaves out negative zero, NaN and every negative number.
    pub open spec fn wf(self) -> bool {
        self.bits <= ONE_BITS
    }

    pub open spec fn zero_spec() -> Degree {
        Degree { bits: 0 }
    }

    /// The degree `0.0`.
    pub fn zero() -> (r: Degree)
        ensures
            r == Degree::zero_spec(),
            r.wf(),
    {
        Degree { bits: 0 }
    }

    /// The degree `1.0`.
    pub fn one() -> (r: Degree)
        ensures
            r.bits == ONE_BITS,
            r.wf(),
    {
        Degree { bits: ONE_BITS }
    }

    /// The degree whose double has the pattern `bits`, if that double lies in `[0, 1]`.
    pub fn from_bits(bits: u64) -> (r: Option<Degree>)
        ensures
            r is Some <==> bits <= ONE_BITS,
            r matches Some(d) ==> d.bits == bits && d.wf(),
    {
        if bits <= ONE_BITS {
            Some(Degree { bits })
        } else {
            None
        }
    }

    /// The bit pattern of the double that carries this degree.
    pub fn to_bits(&self) -> (r: u64)
        ensures
            r == self.bits,
    {
        self.bits
    }
}

/// The fuzzy connectives on degrees.
pub struct FuzzyOperation;

impl FuzzyOperation {
    /// Fuzzy AND: the minimum of the two degrees.
    pub fn and(a: &Degree, b: &Degree) -> (r: Degree)
        ensures
            r == min_degree(*a, *b),
            r.bits <= a.bits && r.bits <= b.bits,
            r == *a || r == *b,
    {
        if a.bits <= b.bits {
            *a
        } else {
            *b
        }
    }

    /// Fuzzy OR: the maximum of the two degrees.
    pub fn or(a: &Degree, b: &Degree) -> (r: Degree)
        ensures
            r == max_degree(*a, *b),
            r.bits >= a.bits && r.bits >= b.bits,
            r == *a || r == *b,
    {
        if a.bits >= b.bits {
            *a
        } else {
            *b
        }
    }
}

} // verus!
