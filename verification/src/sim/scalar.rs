use vstd::prelude::*;

verus! {

/// The arithmetic that the simulation needs from a number type.
///
/// Every operation comes as a pair: a specification function that names the
/// result, and an executable method that returns exactly that result. The
/// trait asks for nothing else: no algebraic law is assumed, so rounding,
/// saturating and non-finite arithmetic all qualify, as long as each
/// operation is a function of its operands.
///
/// An implementation in unverified code writes the specification functions
/// as ordinary functions, and lets each method return what its
/// specification function returns.
pub trait Scalar: Copy {
    /// The number that stands for the integer `n`.
    spec fn spec_from_u32(n: u32) -> Self;

    /// `self + rhs`.
    spec fn spec_plus(self, rhs: Self) -> Self;

    /// `self - rhs`.
    spec fn spec_minus(self, rhs: Self) -> Self;

    /// `self * rhs`.
    spec fn spec_times(self, rhs: Self) -> Self;

    /// `self / rhs`.
    spec fn spec_over(self, rhs: Self) -> Self;

    /// `-self`.
    spec fn spec_neg(self) -> Self;

    /// `|self|`.
    spec fn spec_abs(self) -> Self;

    /// The square root of `self`.
    spec fn spec_sqrt(self) -> Self;

    /// `self < rhs`.
    spec fn spec_less(self, rhs: Self) -> bool;

    fn from_u32(n: u32) -> (r: Self)
        ensures
            r == Self::spec_from_u32(n),
    ;

    fn plus(self, rhs: Self) -> (r: Self)
        ensures
            r == self.spec_plus(rhs),
    ;

    fn minus(self, rhs: Self) -> (r: Self)
        ensures
            r == self.spec_minus(rhs),
    ;

    fn times(self, rhs: Self) -> (r: Self)
        ensures
            r == self.spec_times(rhs),
    ;

    fn over(self, rhs: Self) -> (r: Self)
        ensures
            r == self.spec_over(rhs),
    ;

    fn neg(self) -> (r: Self)
        ensures
            r == self.spec_neg(),
    ;

    fn abs(self) -> (r: Self)
        ensures
            r == self.spec_abs(),
    ;

    fn sqrt(self) -> (r: Self)
        ensures
            r == self.spec_sqrt(),
    ;

    fn less(self, rhs: Self) -> (r: bool)
        ensures
            r == self.spec_less(rhs),
    ;
}

} // verus!
