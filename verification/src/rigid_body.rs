//! Point-mass bodies: what they are made of, and how a force and the passing of
//! time change them.
use vstd::prelude::*;
use crate::scalar::{
    Scalar, inverts_to, is_functional, lemma_inverse_is_unique, reciprocal, yields_zero,
};
use crate::vector::{Vector, lemma_scaled_is_unique, lemma_sum_is_unique};

verus! {

/// The outline of a body. It is there for whoever draws the body: the simulation
/// treats every body as a point mass and never reads its extents.
pub enum Shape<S: Scalar> {
    /// A disc around the body's position.
    Circle { radius: S },
    /// A rectangle with the body's position at its centre.
    Rectangle { width: S, height: S },
}

/// A point mass with a position, a velocity and a shape.
///
/// `mass` is expected to be positive. This is not checked: a force is turned into
/// an acceleration by multiplying with the reciprocal of the mass, and with a
/// zero or negative mass the result is whatever the scalar's division makes of
/// it.
pub struct RigidBody<S: Scalar> {
    /// Where the body is.
    pub position: Vector<S>,
    /// How far the body moves per unit of time.
    pub velocity: Vector<S>,
    /// The mass, by whose reciprocal a force is scaled to accelerate the body.
    pub mass: S,
    /// The outline to draw the body with.
    pub shape: Shape<S>,
}

impl<S: Scalar> RigidBody<S> {
    /// `after` is a velocity that `before` can have become when `force` has acted on
    /// a body of the given mass for the time `dt`: the force is scaled by the
    /// reciprocal of the mass, the acceleration so obtained is scaled by `dt`,
    /// and that change is added to `before`.
    pub open spec fn is_accelerated(
        before: Vector<S>,
        mass: S,
        force: Vector<S>,
        dt: S,
        after: Vector<S>,
    ) -> bool {
        exists|inv: S, acceleration: Vector<S>, change: Vector<S>|
            #![trigger
                inverts_to(mass, inv),
                Vector::is_scaled(force, inv, acceleration),
                Vector::is_scaled(acceleration, dt, change)]
            inverts_to(mass, inv) && Vector::is_scaled(force, inv, acceleration)
                && Vector::is_scaled(acceleration, dt, change) && Vector::is_sum(
                before,
                change,
                after,
            )
    }

    /// `after` is a position that `before` can have become when a body has moved
    /// with `velocity` for the time `dt`: the velocity is scaled by `dt`, and that
    /// displacement is added to `before`.
    pub open spec fn is_displaced(
        before: Vector<S>,
        velocity: Vector<S>,
        dt: S,
        after: Vector<S>,
    ) -> bool {
        exists|displacement: Vector<S>| #[trigger]
            Vector::is_scaled(velocity, dt, displacement) && Vector::is_sum(
                before,
                displacement,
                after,
            )
    }

    /// `after` is a state that the body `before` can be in after one step of the
    /// length `dt` under `gravity`: the weight of the body, `gravity` scaled by its
    /// mass, has acted on its velocity, and the body has then moved with the
    /// velocity it has just been given. Mass and shape are as before.
    pub open spec fn is_stepped(before: Self, gravity: Vector<S>, dt: S, after: Self) -> bool {
        &&& exists|weight: Vector<S>| #[trigger]
            Vector::is_scaled(gravity, before.mass, weight) && Self::is_accelerated(
                before.velocity,
                before.mass,
                weight,
                dt,
                after.velocity,
            )
        &&& Self::is_displaced(before.position, after.velocity, dt, after.position)
        &&& after.mass == before.mass
        &&& after.shape == before.shape
    }

    /// A body at rest at `position`, with the given mass and shape.
    pub fn new(position: Vector<S>, mass: S, shape: Shape<S>) -> (r: Self)
        ensures
            r.position == position,
            r.mass == mass,
            r.shape == shape,
            yields_zero(r.velocity.x),
            yields_zero(r.velocity.y),
    {
        RigidBody { position, velocity: Vector::new(S::zero(), S::zero()), mass, shape }
    }

    /// Lets `force` act on the body for the time `dt`. The velocity changes at
    /// once, by `force * (1 / mass) * dt`: nothing is accumulated and summed up
    /// later, so each force is to be applied once per step. Position, mass and
    /// shape stay as they are.
    pub fn apply_force(&mut self, force: Vector<S>, dt: S)
        ensures
            Self::is_accelerated(
                old(self).velocity,
                old(self).mass,
                force,
                dt,
                final(self).velocity,
            ),
            final(self).position == old(self).position,
            final(self).mass == old(self).mass,
            final(self).shape == old(self).shape,
    {
        let inv = reciprocal(self.mass);
        let acceleration = force.scale(inv);
        let change = acceleration.scale(dt);
        assert(inverts_to(self.mass, inv) && Vector::is_scaled(force, inv, acceleration)
            && Vector::is_scaled(acceleration, dt, change));
        self.velocity = self.velocity.add(&change);
    }

    /// Moves the body with its current velocity for the time `dt`, to
    /// `position + velocity * dt`. Called after the forces of a step have been
    /// applied, this moves the body with its new velocity. Velocity, mass and
    /// shape stay as they are.
    pub fn update(&mut self, dt: S)
        ensures
            Self::is_displaced(
                old(self).position,
                old(self).velocity,
                dt,
                final(self).position,
            ),
            final(self).velocity == old(self).velocity,
            final(self).mass == old(self).mass,
            final(self).shape == old(self).shape,
    {
        let displacement = self.velocity.scale(dt);
        self.position = self.position.add(&displacement);
    }
}

/// Where the scalar's operations are functions, a force acting for a time leaves
/// a velocity with at most one successor.
pub proof fn lemma_accelerated_is_unique<S: Scalar>(
    before: Vector<S>,
    mass: S,
    force: Vector<S>,
    dt: S,
    after1: Vector<S>,
    after2: Vector<S>,
)
    requires
        is_functional::<S>(),
        RigidBody::is_accelerated(before, mass, force, dt, after1),
        RigidBody::is_accelerated(before, mass, force, dt, after2),
    ensures
        after1 == after2,
{
    let (inv1, acceleration1, change1) = choose|
        inv: S,
        acceleration: Vector<S>,
        change: Vector<S>,
    |
        #![trigger
            inverts_to(mass, inv),
            Vector::is_scaled(force, inv, acceleration),
            Vector::is_scaled(acceleration, dt, change)]
        inverts_to(mass, inv) && Vector::is_scaled(force, inv, acceleration) && Vector::is_scaled(
            acceleration,
            dt,
            change,
        ) && Vector::is_sum(before, change, after1);
    let (inv2, acceleration2, change2) = choose|
        inv: S,
        acceleration: Vector<S>,
        change: Vector<S>,
    |
        #![trigger
            inverts_to(mass, inv),
            Vector::is_scaled(force, inv, acceleration),
            Vector::is_scaled(acceleration, dt, change)]
        inverts_to(mass, inv) && Vector::is_scaled(force, inv, acceleration) && Vector::is_scaled(
            acceleration,
            dt,
            change,
        ) && Vector::is_sum(before, change, after2);
    lemma_inverse_is_unique(mass, inv1, inv2);
    lemma_scaled_is_unique(force, inv1, acceleration1, acceleration2);
    lemma_scaled_is_unique(acceleration1, dt, change1, change2);
    lemma_sum_is_unique(before, change1, after1, after2);
}

/// Where the scalar's operations are functions, moving with a velocity for a
/// time leaves a position with at most one successor.
pub proof fn lemma_displaced_is_unique<S: Scalar>(
    before: Vector<S>,
    velocity: Vector<S>,
    dt: S,
    after1: Vector<S>,
    after2: Vector<S>,
)
    requires
        is_functional::<S>(),
        RigidBody::is_displaced(before, velocity, dt, after1),
        RigidBody::is_displaced(before, velocity, dt, after2),
    ensures
        after1 == after2,
{
    let displacement1 = choose|displacement: Vector<S>| #[trigger]
        Vector::is_scaled(velocity, dt, displacement) && Vector::is_sum(
            before,
            displacement,
            after1,
        );
    let displacement2 = choose|displacement: Vector<S>| #[trigger]
        Vector::is_scaled(velocity, dt, displacement) && Vector::is_sum(
            before,
            displacement,
            after2,
        );
    lemma_scaled_is_unique(velocity, dt, displacement1, displacement2);
    lemma_sum_is_unique(before, displacement1, after1, after2);
}

/// Where the scalar's operations are functions, a step is one: a body has at
/// most one state after a step of a given length under a given gravity.
pub proof fn lemma_stepped_is_unique<S: Scalar>(
    before: RigidBody<S>,
    gravity: Vector<S>,
    dt: S,
    after1: RigidBody<S>,
    after2: RigidBody<S>,
)
    requires
        is_functional::<S>(),
        RigidBody::is_stepped(before, gravity, dt, after1),
        RigidBody::is_stepped(before, gravity, dt, after2),
    ensures
        after1 == after2,
{
    let weight1 = choose|weight: Vector<S>| #[trigger]
        Vector::is_scaled(gravity, before.mass, weight) && RigidBody::is_accelerated(
            before.velocity,
            before.mass,
            weight,
            dt,
            after1.velocity,
        );
    let weight2 = choose|weight: Vector<S>| #[trigger]
        Vector::is_scaled(gravity, before.mass, weight) && RigidBody::is_accelerated(
            before.velocity,
            before.mass,
            weight,
            dt,
            after2.velocity,
        );
    lemma_scaled_is_unique(gravity, before.mass, weight1, weight2);
    lemma_accelerated_is_unique(
        before.velocity,
        before.mass,
        weight1,
        dt,
        after1.velocity,
        after2.velocity,
    );
    lemma_displaced_is_unique(
        before.position,
        after1.velocity,
        dt,
        after1.position,
        after2.position,
    );
}

} // verus!
