//! Two-dimensional vectors over a [`Scalar`].
use vstd::prelude::*;
use crate::scalar::{
    Scalar, adds_to, inverts_to, is_functional, lemma_inverse_is_unique, multiplies_to, reciprocal,
    roots_to, tests_zero,
};

verus! {

/// A vector of the plane. A plain value: every operation leaves its operands as
/// they were and returns a new vector or scalar.
#[derive(Debug)]
pub struct Vector<S: Scalar> {
    pub x: S,
    pub y: S,
}

impl<S: Scalar> Clone for Vector<S> {
    fn clone(&self) -> (r: Self)
        ensures
            r == *self,
    {
        *self
    }
}

impl<S: Scalar> Copy for Vector<S> {

}

impl<S: Scalar> Vector<S> {
    /// `r` is a component-wise sum of `a` and `b`.
    pub open spec fn is_sum(a: Self, b: Self, r: Self) -> bool {
        &&& adds_to(a.x, b.x, r.x)
        &&& adds_to(a.y, b.y, r.y)
    }

    /// `r` is `v` with each component multiplied by `s`, the component on the left.
    pub open spec fn is_scaled(v: Self, s: S, r: Self) -> bool {
        &&& multiplies_to(v.x, s, r.x)
        &&& multiplies_to(v.y, s, r.y)
    }

    /// `r` is a dot product of `a` and `b`: the product of the `x` components plus
    /// the product of the `y` components, in that order.
    pub open spec fn is_dot(a: Self, b: Self, r: S) -> bool {
        exists|p: S, q: S|
            #![trigger multiplies_to(a.x, b.x, p), multiplies_to(a.y, b.y, q)]
            multiplies_to(a.x, b.x, p) && multiplies_to(a.y, b.y, q) && adds_to(p, q, r)
    }

    /// `r` is a Euclidean norm of `v`: a square root of a dot product of `v` with
    /// itself.
    pub open spec fn is_magnitude(v: Self, r: S) -> bool {
        exists|d: S| #[trigger] Self::is_dot(v, v, d) && roots_to(d, r)
    }

    /// `r` is `v` scaled by the reciprocal of the magnitude `m`.
    pub open spec fn is_divided_by(v: Self, m: S, r: Self) -> bool {
        exists|inv: S| #[trigger] inverts_to(m, inv) && Self::is_scaled(v, inv, r)
    }

    /// `r` is a normalisation of `v`: `v` itself where its magnitude tests as zero,
    /// else `v` scaled by the reciprocal of its magnitude.
    pub open spec fn is_normalized(v: Self, r: Self) -> bool {
        exists|m: S, z: bool|
            #![trigger Self::is_magnitude(v, m), tests_zero(m, z)]
            Self::is_magnitude(v, m) && tests_zero(m, z) && if z {
                r == v
            } else {
                Self::is_divided_by(v, m, r)
            }
    }

    /// The vector with the given components. Nothing is checked: any scalar is a
    /// legal component.
    pub fn new(x: S, y: S) -> (r: Self)
        ensures
            r.x == x,
            r.y == y,
    {
        Vector { x, y }
    }

    /// The component-wise sum of `self` and `other`.
    pub fn add(&self, other: &Vector<S>) -> (r: Vector<S>)
        ensures
            adds_to(self.x, other.x, r.x),
            adds_to(self.y, other.y, r.y),
            Self::is_sum(*self, *other, r),
    {
        Vector { x: self.x.add(other.x), y: self.y.add(other.y) }
    }

    /// `self` with each component multiplied by `scalar`.
    pub fn scale(&self, scalar: S) -> (r: Vector<S>)
        ensures
            multiplies_to(self.x, scalar, r.x),
            multiplies_to(self.y, scalar, r.y),
            Self::is_scaled(*self, scalar, r),
    {
        Vector { x: self.x.mul(scalar), y: self.y.mul(scalar) }
    }

    /// The dot product `self.x * other.x + self.y * other.y`.
    pub fn dot(&self, other: &Vector<S>) -> (r: S)
        ensures
            Self::is_dot(*self, *other, r),
    {
        let p = self.x.mul(other.x);
        let q = self.y.mul(other.y);
        assert(multiplies_to(self.x, other.x, p) && multiplies_to(self.y, other.y, q));
        p.add(q)
    }

    /// The Euclidean norm of `self`.
    pub fn magnitude(&self) -> (r: S)
        ensures
            Self::is_magnitude(*self, r),
    {
        let d = self.dot(self);
        d.sqrt()
    }

    /// `self` scaled to unit length. A vector whose magnitude tests as zero has
    /// no direction and is returned unchanged; nothing is divided by zero.
    pub fn normalize(&self) -> (r: Vector<S>)
        ensures
            Self::is_normalized(*self, r),
    {
        let mag = self.magnitude();
        let zero = mag.is_zero();
        assert(Self::is_magnitude(*self, mag) && tests_zero(mag, zero));
        if !zero {
            let inv = reciprocal(mag);
            assert(inverts_to(mag, inv));
            self.scale(inv)
        } else {
            *self
        }
    }
}

/// What [`Vector::normalize`] promises of a vector without length: where
/// every magnitude of `v` tests as zero, `v` is its own and only normalisation.
pub proof fn lemma_normalized_without_length<S: Scalar>(v: Vector<S>, r: Vector<S>)
    requires
        Vector::is_normalized(v, r),
        forall|m: S, z: bool|
            #![trigger Vector::is_magnitude(v, m), tests_zero(m, z)]
            Vector::is_magnitude(v, m) && tests_zero(m, z) ==> z,
    ensures
        r == v,
{
}

/// Where the scalar's operations are functions, two vectors have at most one sum.
pub proof fn lemma_sum_is_unique<S: Scalar>(a: Vector<S>, b: Vector<S>, r1: Vector<S>, r2: Vector<S>)
    requires
        is_functional::<S>(),
        Vector::is_sum(a, b, r1),
        Vector::is_sum(a, b, r2),
    ensures
        r1 == r2,
{
}

/// Where the scalar's operations are functions, a vector has at most one
/// scaling by a given scalar.
pub proof fn lemma_scaled_is_unique<S: Scalar>(v: Vector<S>, s: S, r1: Vector<S>, r2: Vector<S>)
    requires
        is_functional::<S>(),
        Vector::is_scaled(v, s, r1),
        Vector::is_scaled(v, s, r2),
    ensures
        r1 == r2,
{
}

/// Where the scalar's operations are functions, two vectors have at most one
/// dot product.
pub proof fn lemma_dot_is_unique<S: Scalar>(a: Vector<S>, b: Vector<S>, r1: S, r2: S)
    requires
        is_functional::<S>(),
        Vector::is_dot(a, b, r1),
        Vector::is_dot(a, b, r2),
    ensures
        r1 == r2,
{
    let (x1, y1) = choose|p: S, q: S|
        #![trigger multiplies_to(a.x, b.x, p), multiplies_to(a.y, b.y, q)]
        multiplies_to(a.x, b.x, p) && multiplies_to(a.y, b.y, q) && adds_to(p, q, r1);
    let (x2, y2) = choose|p: S, q: S|
        #![trigger multiplies_to(a.x, b.x, p), multiplies_to(a.y, b.y, q)]
        multiplies_to(a.x, b.x, p) && multiplies_to(a.y, b.y, q) && adds_to(p, q, r2);
    assert(x1 == x2 && y1 == y2);
}

/// Where the scalar's operations are functions, a vector has at most one
/// magnitude.
pub proof fn lemma_magnitude_is_unique<S: Scalar>(v: Vector<S>, r1: S, r2: S)
    requires
        is_functional::<S>(),
        Vector::is_magnitude(v, r1),
        Vector::is_magnitude(v, r2),
    ensures
        r1 == r2,
{
    let d1 = choose|d: S| #[trigger] Vector::is_dot(v, v, d) && roots_to(d, r1);
    let d2 = choose|d: S| #[trigger] Vector::is_dot(v, v, d) && roots_to(d, r2);
    lemma_dot_is_unique(v, v, d1, d2);
}

/// Where the scalar's operations are functions, a vector has at most one
/// normalisation.
pub proof fn lemma_normalized_is_unique<S: Scalar>(v: Vector<S>, r1: Vector<S>, r2: Vector<S>)
    requires
        is_functional::<S>(),
        Vector::is_normalized(v, r1),
        Vector::is_normalized(v, r2),
    ensures
        r1 == r2,
{
    let (m1, z1) = choose|m: S, z: bool|
        #![trigger Vector::is_magnitude(v, m), tests_zero(m, z)]
        Vector::is_magnitude(v, m) && tests_zero(m, z) && if z {
            r1 == v
        } else {
            Vector::is_divided_by(v, m, r1)
        };
    let (m2, z2) = choose|m: S, z: bool|
        #![trigger Vector::is_magnitude(v, m), tests_zero(m, z)]
        Vector::is_magnitude(v, m) && tests_zero(m, z) && if z {
            r2 == v
        } else {
            Vector::is_divided_by(v, m, r2)
        };
    lemma_magnitude_is_unique(v, m1, m2);
    assert(z1 == z2);
    if !z1 {
        let inv1 = choose|inv: S| #[trigger] inverts_to(m1, inv) && Vector::is_scaled(v, inv, r1);
        let inv2 = choose|inv: S| #[trigger] inverts_to(m1, inv) && Vector::is_scaled(v, inv, r2);
        lemma_inverse_is_unique(m1, inv1, inv2);
        lemma_scaled_is_unique(v, inv1, r1, r2);
    }
}

} // verus!
