//! The world: the bodies of a simulation in the order in which they were added,
//! and the gravity they all fall under.
use vstd::prelude::*;
use crate::rigid_body::{RigidBody, lemma_stepped_is_unique};
use crate::scalar::{Scalar, is_functional};
use crate::vector::Vector;

verus! {

/// What a [`World`] holds, as a mathematical value: the view of a world.
pub ghost struct WorldModel<S: Scalar> {
    /// The bodies, in the order in which they were added. A body's place in this
    /// sequence is the index under which it is looked up.
    pub bodies: Seq<RigidBody<S>>,
    /// The gravitational acceleration.
    pub gravity: Vector<S>,
}

impl<S: Scalar> WorldModel<S> {
    /// The world without bodies under `gravity`.
    pub open spec fn empty(gravity: Vector<S>) -> Self {
        WorldModel { bodies: Seq::empty(), gravity }
    }

    /// This world with `body` added behind the bodies it has.
    pub open spec fn with_body(self, body: RigidBody<S>) -> Self {
        WorldModel { bodies: self.bodies.push(body), gravity: self.gravity }
    }

    /// The number of bodies.
    pub open spec fn count(self) -> nat {
        self.bodies.len()
    }

    /// The body at `index`, if there is one.
    pub open spec fn body_at(self, index: int) -> Option<RigidBody<S>> {
        if 0 <= index < self.bodies.len() {
            Some(self.bodies[index])
        } else {
            None
        }
    }

    /// `after` is a world that this one can have become by one step of the length
    /// `dt`: it has the same gravity and as many bodies, and the body at each
    /// index is the body that was there before, stepped under that gravity.
    pub open spec fn steps_to(self, dt: S, after: Self) -> bool {
        &&& after.gravity == self.gravity
        &&& after.bodies.len() == self.bodies.len()
        &&& forall|i: int|
            0 <= i < self.bodies.len() ==> RigidBody::is_stepped(
                self.bodies[i],
                self.gravity,
                dt,
                #[trigger] after.bodies[i],
            )
    }

    /// The world that is reached from the empty world under `gravity` by adding
    /// the elements of `bodies` one after the other, the first one first.
    pub open spec fn populated(gravity: Vector<S>, bodies: Seq<RigidBody<S>>) -> Self
        decreases bodies.len(),
    {
        if bodies.len() == 0 {
            Self::empty(gravity)
        } else {
            Self::populated(gravity, bodies.drop_last()).with_body(bodies.last())
        }
    }

    /// `states` is a run of the simulation with the time steps `dts`: each state
    /// but the first comes from the one before it by a step.
    pub open spec fn is_run(states: Seq<Self>, dts: Seq<S>) -> bool {
        &&& states.len() == dts.len() + 1
        &&& forall|k: int|
            0 <= k < dts.len() ==> states[k].steps_to(#[trigger] dts[k], states[k + 1])
    }
}

/// The bodies of a simulation and the gravity they fall under.
///
/// A world owns its bodies. They are only ever added at the end and never
/// removed, so the index a body was given when it was added stays its index.
/// The gravity is set when the world is made and does not change.
pub struct World<S: Scalar> {
    bodies: Vec<RigidBody<S>>,
    gravity: Vector<S>,
}

impl<S: Scalar> View for World<S> {
    type V = WorldModel<S>;

    closed spec fn view(&self) -> WorldModel<S> {
        WorldModel { bodies: self.bodies@, gravity: self.gravity }
    }
}

impl<S: Scalar> World<S> {
    /// A world without bodies under `gravity`.
    pub fn new(gravity: Vector<S>) -> (world: Self)
        ensures
            world@ == WorldModel::empty(gravity),
    {
        World { bodies: Vec::new(), gravity }
    }

    /// Adds `body` behind the bodies already there. Its index is the number of
    /// bodies that the world had before.
    pub fn add_body(&mut self, body: RigidBody<S>)
        ensures
            final(self)@ == old(self)@.with_body(body),
            final(self)@.count() == old(self)@.count() + 1,
            final(self)@.body_at(old(self)@.count() as int) == Some(body),
    {
        self.bodies.push(body);
    }

    /// Advances the simulation by the time `dt`. For each body, in the order of
    /// the indices: its weight acts on its velocity, then the body moves with the
    /// new velocity. A `dt` that is zero or negative is taken as it is.
    pub fn step(&mut self, dt: S)
        ensures
            old(self)@.steps_to(dt, final(self)@),
            final(self)@.count() == old(self)@.count(),
            old(self)@.count() == 0 ==> final(self)@ == old(self)@,
    {
        let n: usize = self.bodies.len();
        let mut i: usize = 0;
        while i < n
            invariant
                i <= n,
                n == self.bodies@.len(),
                n == old(self).bodies@.len(),
                self.gravity == old(self).gravity,
                forall|j: int|
                    0 <= j < i ==> RigidBody::is_stepped(
                        old(self).bodies@[j],
                        self.gravity,
                        dt,
                        #[trigger] self.bodies@[j],
                    ),
                forall|j: int| i <= j < n ==> #[trigger] self.bodies@[j] == old(self).bodies@[j],
            decreases n - i,
        {
            let weight = self.gravity.scale(self.bodies[i].mass);
            let body = &mut self.bodies[i];
            body.apply_force(weight, dt);
            body.update(dt);
            i += 1;
        }
        proof {
            if n == 0 {
                lemma_step_of_empty_world(old(self)@, dt, self@);
            }
        }
    }

    /// The number of bodies.
    pub fn body_count(&self) -> (count: usize)
        ensures
            count == self@.count(),
    {
        self.bodies.len()
    }

    /// The body at `index`, or `None` where `index` is not below the number of
    /// bodies.
    pub fn get_body(&self, index: usize) -> (body: Option<&RigidBody<S>>)
        ensures
            body is Some <==> index < self@.count(),
            match body {
                Some(found) => self@.body_at(index as int) == Some(*found),
                None => self@.body_at(index as int) is None,
            },
    {
        if index < self.bodies.len() {
            Some(&self.bodies[index])
        } else {
            None
        }
    }

    /// The gravitational acceleration that the world was made with.
    pub fn gravity(&self) -> (gravity: Vector<S>)
        ensures
            gravity == self@.gravity,
    {
        self.gravity
    }
}

/// A world counts as many bodies as were added to it, holds each under the index
/// that the count was when the body was added, and holds nothing under any other
/// index.
pub proof fn lemma_count_is_number_added<S: Scalar>(
    gravity: Vector<S>,
    bodies: Seq<RigidBody<S>>,
)
    ensures
        WorldModel::populated(gravity, bodies).count() == bodies.len(),
        WorldModel::populated(gravity, bodies).gravity == gravity,
        forall|i: int|
            0 <= i < bodies.len() ==> #[trigger] WorldModel::populated(gravity, bodies).body_at(i)
                == Some(bodies[i]),
        forall|i: int|
            i < 0 || i >= bodies.len() ==> #[trigger] WorldModel::populated(
                gravity,
                bodies,
            ).body_at(i) is None,
{
    lemma_populated_holds_what_was_added(gravity, bodies);
}

/// Adding bodies one by one to the empty world leads to the world that has
/// exactly these bodies, in the order in which they were added.
pub proof fn lemma_populated_holds_what_was_added<S: Scalar>(
    gravity: Vector<S>,
    bodies: Seq<RigidBody<S>>,
)
    ensures
        WorldModel::populated(gravity, bodies) == (WorldModel { bodies, gravity }),
    decreases bodies.len(),
{
    if bodies.len() > 0 {
        lemma_populated_holds_what_was_added(gravity, bodies.drop_last());
        assert(bodies.drop_last().push(bodies.last()) =~= bodies);
    } else {
        assert(bodies =~= Seq::empty());
    }
}

/// A step neither adds nor removes nor reorders: the world has as many bodies
/// after it as before, under the same gravity, and the body at each index has
/// the mass and the shape that the body at that index had.
pub proof fn lemma_step_keeps_places<S: Scalar>(before: WorldModel<S>, dt: S, after: WorldModel<S>)
    requires
        before.steps_to(dt, after),
    ensures
        after.count() == before.count(),
        after.gravity == before.gravity,
        forall|i: int|
            0 <= i < before.count() ==> (#[trigger] after.bodies[i]).mass == before.bodies[i].mass
                && after.bodies[i].shape == before.bodies[i].shape,
{
}

/// What holds of a step holds of a run: every state of a run has as many bodies
/// as the first, under the same gravity, and the body at each index has the mass
/// and the shape that the body at that index had at first.
pub proof fn lemma_run_keeps_places<S: Scalar>(
    states: Seq<WorldModel<S>>,
    dts: Seq<S>,
    k: int,
)
    requires
        WorldModel::is_run(states, dts),
        0 <= k < states.len(),
    ensures
        states[k].count() == states[0].count(),
        states[k].gravity == states[0].gravity,
        forall|i: int|
            0 <= i < states[0].count() ==> (#[trigger] states[k].bodies[i]).mass
                == states[0].bodies[i].mass && states[k].bodies[i].shape
                == states[0].bodies[i].shape,
    decreases k,
{
    if k > 0 {
        lemma_run_keeps_places(states, dts, k - 1);
        assert(states[k - 1].steps_to(dts[k - 1], states[k - 1 + 1]));
        lemma_step_keeps_places(states[k - 1], dts[k - 1], states[k]);
    }
}

/// A step of a world without bodies changes nothing.
pub proof fn lemma_step_of_empty_world<S: Scalar>(
    before: WorldModel<S>,
    dt: S,
    after: WorldModel<S>,
)
    requires
        before.count() == 0,
        before.steps_to(dt, after),
    ensures
        after == before,
{
    assert(after.bodies =~= before.bodies);
}

/// However many steps a world without bodies takes, and of whatever lengths, it
/// stays the world it was: every state of a run that starts without bodies is
/// the first state.
pub proof fn lemma_run_of_empty_world<S: Scalar>(
    states: Seq<WorldModel<S>>,
    dts: Seq<S>,
    k: int,
)
    requires
        WorldModel::is_run(states, dts),
        states[0].count() == 0,
        0 <= k < states.len(),
    ensures
        states[k] == states[0],
        states[k].count() == 0,
    decreases k,
{
    if k > 0 {
        lemma_run_of_empty_world(states, dts, k - 1);
        assert(states[k - 1].steps_to(dts[k - 1], states[k - 1 + 1]));
        lemma_step_of_empty_world(states[k - 1], dts[k - 1], states[k]);
    }
}

/// Where the scalar's operations are functions, the simulation is one: a world
/// has at most one state after a step of a given length.
pub proof fn lemma_step_is_unique<S: Scalar>(
    before: WorldModel<S>,
    dt: S,
    after1: WorldModel<S>,
    after2: WorldModel<S>,
)
    requires
        is_functional::<S>(),
        before.steps_to(dt, after1),
        before.steps_to(dt, after2),
    ensures
        after1 == after2,
{
    assert forall|i: int| 0 <= i < before.bodies.len() implies after1.bodies[i]
        == after2.bodies[i] by {
        lemma_stepped_is_unique(
            before.bodies[i],
            before.gravity,
            dt,
            after1.bodies[i],
            after2.bodies[i],
        );
    }
    assert(after1.bodies =~= after2.bodies);
}

/// Where the scalar's operations are functions, a run is decided by the world it
/// starts from and the lengths of its steps: two runs with the same first state
/// and the same time steps are in the same state after every step.
pub proof fn lemma_run_is_unique<S: Scalar>(
    states1: Seq<WorldModel<S>>,
    states2: Seq<WorldModel<S>>,
    dts: Seq<S>,
    k: int,
)
    requires
        is_functional::<S>(),
        WorldModel::is_run(states1, dts),
        WorldModel::is_run(states2, dts),
        states1[0] == states2[0],
        0 <= k <= dts.len(),
    ensures
        states1[k] == states2[k],
    decreases k,
{
    if k > 0 {
        lemma_run_is_unique(states1, states2, dts, k - 1);
        assert(states1[k - 1].steps_to(dts[k - 1], states1[k - 1 + 1]));
        assert(states2[k - 1].steps_to(dts[k - 1], states2[k - 1 + 1]));
        lemma_step_is_unique(states1[k - 1], dts[k - 1], states1[k], states2[k]);
    }
}

} // verus!
