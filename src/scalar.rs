use vstd::prelude::*;

verus! {

/// The number type that the solver computes in.
///
/// The library is generic over it. Each operation has a spec function that
/// names its result, so the library's contracts state exactly which
/// operations, on which values and in which order, produce each number it
/// returns. Nothing more is assumed about the arithmetic: no algebraic law
/// is taken for granted.
pub trait Scalar: Copy + Sized {
    spec fn spec_zero() -> Self;

    spec fn spec_from_int(n: i64) -> Self;

    spec fn spec_plus(self, rhs: Self) -> Self;

    spec fn spec_minus(self, rhs: Self) -> Self;

    spec fn spec_times(self, rhs: Self) -> Self;

    spec fn spec_over(self, rhs: Self) -> Self;

    spec fn spec_abs(self) -> Self;

    spec fn spec_is_positive(self) -> bool;

    spec fn spec_is_zero(self) -> bool;

    fn zero() -> (r: Self)
        ensures
            r == Self::spec_zero(),
    ;

    fn from_int(n: i64) -> (r: Self)
        ensures
            r == Self::spec_from_int(n),
    ;

    fn plus(self, rhs: Self) -> (r: Self)
        ensures
            r == self.spec_plus(rhs),
    ;

    fn minus(self, rhs: Self) -> (r: Self)
        ensures
            r == self.spec_minus(rhs),
    ;

    fn times(self, rhs: Self) -> (r: Self)
        ensures
            r == self.spec_times(rhs),
    ;

    fn over(self, rhs: Self) -> (r: Self)
        ensures
            r == self.spec_over(rhs),
    ;

    fn abs(self) -> (r: Self)
        ensures
            r == self.spec_abs(),
    ;

    /// Whether the value is strictly greater than zero.
    fn is_positive(self) -> (r: bool)
        ensures
            r == self.spec_is_positive(),
    ;

    fn is_zero(self) -> (r: bool)
        ensures
            r == self.spec_is_zero(),
    ;
}

} // verus!
