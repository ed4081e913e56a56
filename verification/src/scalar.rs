//! The number type of a simulation, and the vocabulary in which the rest of the
//! crate says what it computes.
use vstd::prelude::*;

verus! {

/// The numbers a simulation computes with.
///
/// An implementation supplies the two constants, the four operations and the zero
/// test that the simulation needs. Every method must return for all operands:
/// where the mathematical result is undefined (a quotient by zero, the root of a
/// negative number) it returns whatever the number type has for that, as IEEE-754
/// arithmetic does with infinities and NaN.
///
/// No method carries a contract, so nothing is assumed of an implementation.
/// What this crate proves is stated relative to it: a result is described as an
/// outcome of a given method on given operands (see [`adds_to`] and its
/// neighbours). An operation need not even be a function of its operands; the
/// statements hold all the same.
pub trait Scalar: Copy {
    /// The additive identity.
    fn zero() -> Self;

    /// The multiplicative identity.
    fn one() -> Self;

    /// The sum `self + rhs`.
    fn add(self, rhs: Self) -> Self;

    /// The product `self * rhs`.
    fn mul(self, rhs: Self) -> Self;

    /// The quotient `self / rhs`.
    fn div(self, rhs: Self) -> Self;

    /// The non-negative square root of `self`.
    fn sqrt(self) -> Self;

    /// Whether `self` compares equal to zero.
    fn is_zero(self) -> bool;
}

/// `r` is an outcome of [`Scalar::zero`].
pub open spec fn yields_zero<S: Scalar>(r: S) -> bool {
    call_ensures(S::zero, (), r)
}

/// `r` is an outcome of [`Scalar::one`].
pub open spec fn yields_one<S: Scalar>(r: S) -> bool {
    call_ensures(S::one, (), r)
}

/// `r` is an outcome of adding `b` to `a`.
pub open spec fn adds_to<S: Scalar>(a: S, b: S, r: S) -> bool {
    call_ensures(S::add, (a, b), r)
}

/// `r` is an outcome of multiplying `a` by `b`.
pub open spec fn multiplies_to<S: Scalar>(a: S, b: S, r: S) -> bool {
    call_ensures(S::mul, (a, b), r)
}

/// `r` is an outcome of dividing `a` by `b`.
pub open spec fn divides_to<S: Scalar>(a: S, b: S, r: S) -> bool {
    call_ensures(S::div, (a, b), r)
}

/// `r` is an outcome of taking the square root of `a`.
pub open spec fn roots_to<S: Scalar>(a: S, r: S) -> bool {
    call_ensures(S::sqrt, (a,), r)
}

/// `r` is an outcome of testing `a` for zero.
pub open spec fn tests_zero<S: Scalar>(a: S, r: bool) -> bool {
    call_ensures(S::is_zero, (a,), r)
}

/// `r` is an outcome of taking the reciprocal of `a`, computed as one over `a`.
pub open spec fn inverts_to<S: Scalar>(a: S, r: S) -> bool {
    exists|one: S| #[trigger] yields_one(one) && divides_to(one, a, r)
}

/// The operations of `S` are functions: each constant has at most one value, and
/// each operation at most one outcome on given operands.
///
/// The contracts of this crate do not need this. Where it holds, they leave room
/// for one result only, as the lemmas named `..._is_unique` show.
pub open spec fn is_functional<S: Scalar>() -> bool {
    &&& forall|r1: S, r2: S|
        #![trigger yields_zero(r1), yields_zero(r2)]
        yields_zero(r1) && yields_zero(r2) ==> r1 == r2
    &&& forall|r1: S, r2: S|
        #![trigger yields_one(r1), yields_one(r2)]
        yields_one(r1) && yields_one(r2) ==> r1 == r2
    &&& forall|a: S, b: S, r1: S, r2: S|
        #![trigger adds_to(a, b, r1), adds_to(a, b, r2)]
        adds_to(a, b, r1) && adds_to(a, b, r2) ==> r1 == r2
    &&& forall|a: S, b: S, r1: S, r2: S|
        #![trigger multiplies_to(a, b, r1), multiplies_to(a, b, r2)]
        multiplies_to(a, b, r1) && multiplies_to(a, b, r2) ==> r1 == r2
    &&& forall|a: S, b: S, r1: S, r2: S|
        #![trigger divides_to(a, b, r1), divides_to(a, b, r2)]
        divides_to(a, b, r1) && divides_to(a, b, r2) ==> r1 == r2
    &&& forall|a: S, r1: S, r2: S|
        #![trigger roots_to(a, r1), roots_to(a, r2)]
        roots_to(a, r1) && roots_to(a, r2) ==> r1 == r2
    &&& forall|a: S, r1: bool, r2: bool|
        #![trigger tests_zero(a, r1), tests_zero(a, r2)]
        tests_zero(a, r1) && tests_zero(a, r2) ==> r1 == r2
}

/// Where the scalar's operations are functions, a scalar has at most one
/// reciprocal.
pub proof fn lemma_inverse_is_unique<S: Scalar>(a: S, r1: S, r2: S)
    requires
        is_functional::<S>(),
        inverts_to(a, r1),
        inverts_to(a, r2),
    ensures
        r1 == r2,
{
    let one1 = choose|one: S| #[trigger] yields_one(one) && divides_to(one, a, r1);
    let one2 = choose|one: S| #[trigger] yields_one(one) && divides_to(one, a, r2);
    assert(one1 == one2);
}

/// The reciprocal of `a`, computed as one over `a`.
pub(crate) fn reciprocal<S: Scalar>(a: S) -> (r: S)
    ensures
        inverts_to(a, r),
{
    let one = S::one();
    let r = one.div(a);
    assert(yields_one(one) && divides_to(one, a, r));
    r
}

} // verus!
