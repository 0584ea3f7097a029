use vstd::prelude::*;

verus! {

/// The scalar number type the optimizer computes with.
///
/// The simplex search only ever combines coordinates through the small set of
/// operations below, so the whole algorithm is verified once, for every type
/// that offers them.  The intended implementations wrap a machine float type,
/// which the verifier cannot reason about directly; such an implementation
/// lives outside the verified crate and is what every proof here ultimately
/// rests on.
///
/// Each executable method is tied to an uninterpreted spec-level counterpart
/// (`add` returns `spec_add`, and so on).  No algebraic law is assumed of
/// those counterparts - not even that `spec_lt` is a strict order - because
/// float arithmetic obeys almost none of them (`NaN` compares false against
/// everything, addition is not associative).  Every contract in this crate
/// therefore states *which* operations are applied to *which* values, and
/// holds for any interpretation, as long as each method of the implementation
/// is a pure function returning the value its spec counterpart denotes.
///
/// An implementation written outside the verifier must still provide the
/// `spec_*` items textually, because they remain items of the compiled
/// trait; their bodies are never executed (ghost code is erased), so
/// `unreachable!()` is the natural choice.
pub trait Scalar: Sized + Copy {
    /// The sum `self + rhs`.
    spec fn spec_add(self, rhs: Self) -> Self;

    /// The difference `self - rhs`.
    spec fn spec_sub(self, rhs: Self) -> Self;

    /// The product `self * rhs`.
    spec fn spec_mul(self, rhs: Self) -> Self;

    /// The fused update `self * a + b`.
    spec fn spec_mul_add(self, a: Self, b: Self) -> Self;

    /// The absolute value of `self`.
    spec fn spec_abs(self) -> Self;

    /// The reciprocal `1 / self`.
    spec fn spec_recip(self) -> Self;

    /// Whether `self < rhs`; expected to be false whenever the two values are
    /// incomparable (for floats: whenever either is `NaN`).
    spec fn spec_lt(self, rhs: Self) -> bool;

    /// Whether `self <= rhs`; expected to be false whenever the two values
    /// are incomparable.
    spec fn spec_le(self, rhs: Self) -> bool;

    /// Whether `self` is the additive identity.
    spec fn spec_is_zero(self) -> bool;

    /// The additive identity.
    spec fn spec_zero() -> Self;

    /// The multiplicative identity.
    spec fn spec_one() -> Self;

    /// The scalar standing for the machine integer `n`.
    spec fn spec_from_usize(n: usize) -> Self;

    fn add(self, rhs: Self) -> (r: Self)
        ensures
            r == self.spec_add(rhs),
    ;

    fn sub(self, rhs: Self) -> (r: Self)
        ensures
            r == self.spec_sub(rhs),
    ;

    fn mul(self, rhs: Self) -> (r: Self)
        ensures
            r == self.spec_mul(rhs),
    ;

    fn mul_add(self, a: Self, b: Self) -> (r: Self)
        ensures
            r == self.spec_mul_add(a, b),
    ;

    fn abs(self) -> (r: Self)
        ensures
            r == self.spec_abs(),
    ;

    fn recip(self) -> (r: Self)
        ensures
            r == self.spec_recip(),
    ;

    fn lt(self, rhs: Self) -> (r: bool)
        ensures
            r == self.spec_lt(rhs),
    ;

    fn le(self, rhs: Self) -> (r: bool)
        ensures
            r == self.spec_le(rhs),
    ;

    fn is_zero(self) -> (r: bool)
        ensures
            r == self.spec_is_zero(),
    ;

    fn zero() -> (r: Self)
        ensures
            r == Self::spec_zero(),
    ;

    fn one() -> (r: Self)
        ensures
            r == Self::spec_one(),
    ;

    fn from_usize(n: usize) -> (r: Self)
        ensures
            r == Self::spec_from_usize(n),
    ;
}

} // verus!
