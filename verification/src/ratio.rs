//! Exact non-negative rational numbers, the value type of note lengths.

use vstd::prelude::*;

verus! {

/// A non-negative fraction `num / den` with a positive denominator.
/// It is kept as written, not reduced: two fractions are the same value
/// when their cross products agree.
#[derive(Debug, Clone, Copy)]
pub struct Ratio {
    num: u64,
    den: u64,
}

impl Ratio {
    #[verifier::type_invariant]
    spec fn positive_denominator(self) -> bool {
        self.den > 0
    }

    pub closed spec fn spec_num(self) -> nat {
        self.num as nat
    }

    pub closed spec fn spec_den(self) -> nat {
        self.den as nat
    }

    /// Both fractions denote the same number.
    pub open spec fn same_value(self, other: Ratio) -> bool {
        self.spec_num() * other.spec_den() == other.spec_num() * self.spec_den()
    }

    /// This fraction denotes a smaller number than `other`, given positive
    /// denominators.
    pub open spec fn below(self, other: Ratio) -> bool {
        self.spec_num() * other.spec_den() < other.spec_num() * self.spec_den()
    }

    /// The fraction `num / den`, or nothing when `den` is zero.
    pub fn new(num: u64, den: u64) -> (r: Option<Ratio>)
        ensures
            den == 0 <==> r is None,
            r matches Some(q) ==> q.spec_num() == num && q.spec_den() == den,
    {
        if den == 0 {
            None
        } else {
            Some(Ratio { num, den })
        }
    }

    /// The whole number `n` as a fraction over one.
    pub fn from_integer(n: u64) -> (r: Ratio)
        ensures
            r.spec_num() == n,
            r.spec_den() == 1,
    {
        Ratio { num: n, den: 1 }
    }

    pub fn num(&self) -> (r: u64)
        ensures
            r == self.spec_num(),
    {
        self.num
    }

    pub fn den(&self) -> (r: u64)
        ensures
            r == self.spec_den(),
            r > 0,
    {
        proof {
            use_type_invariant(self);
        }
        self.den
    }

    /// Strict order of the denoted numbers.
    pub fn less_than(&self, other: &Ratio) -> (r: bool)
        ensures
            r == self.below(*other),
    {
        let left = cross_product(self.num, other.den);
        let right = cross_product(other.num, self.den);
        left < right
    }
}

/// The product of two 64-bit numbers, which always fits 128 bits.
pub fn cross_product(a: u64, b: u64) -> (r: u128)
    ensures
        r == a * b,
{
    assert(a * b <= 0xffff_ffff_ffff_ffff * 0xffff_ffff_ffff_ffff) by (nonlinear_arith)
        requires
            a <= 0xffff_ffff_ffff_ffff,
            b <= 0xffff_ffff_ffff_ffff,
    ;
    (a as u128) * (b as u128)
}

impl PartialEq for Ratio {
    fn eq(&self, other: &Ratio) -> (r: bool) {
        let left = cross_product(self.num, other.den);
        let right = cross_product(other.num, self.den);
        left == right
    }
}

impl vstd::std_specs::cmp::PartialEqSpecImpl for Ratio {
    open spec fn obeys_eq_spec() -> bool {
        true
    }

    open spec fn eq_spec(&self, other: &Ratio) -> bool {
        self.same_value(*other)
    }
}

} // verus!
