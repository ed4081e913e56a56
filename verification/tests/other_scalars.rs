//! The simulation run on number types other than doubles.
use physics_simulation::rigid_body::{RigidBody, Shape};
use physics_simulation::scalar::Scalar;
use physics_simulation::vector::Vector;
use physics_simulation::world::World;

/// Whole numbers: sums and products saturate, quotients truncate, a quotient by
/// zero is zero, and the root is the largest whole number whose square fits.
#[derive(Clone, Copy, Debug, PartialEq, Eq)]
struct Whole(i64);

impl Scalar for Whole {
    fn zero() -> Self {
        Whole(0)
    }

    fn one() -> Self {
        Whole(1)
    }

    fn add(self, rhs: Self) -> Self {
        Whole(self.0.saturating_add(rhs.0))
    }

    fn mul(self, rhs: Self) -> Self {
        Whole(self.0.saturating_mul(rhs.0))
    }

    fn div(self, rhs: Self) -> Self {
        Whole(self.0.checked_div(rhs.0).unwrap_or(0))
    }

    fn sqrt(self) -> Self {
        let mut root: i64 = 0;
        while (root + 1).saturating_mul(root + 1) <= self.0 {
            root += 1;
        }
        Whole(root)
    }

    fn is_zero(self) -> bool {
        self.0 == 0
    }
}

fn vector(x: i64, y: i64) -> Vector<Whole> {
    Vector::new(Whole(x), Whole(y))
}

#[test]
fn test_whole_vectors() {
    let a = vector(3, 4);
    let b = vector(-2, 7);
    let sum = a.add(&b);
    assert_eq!((sum.x, sum.y), (Whole(1), Whole(11)));
    let scaled = a.scale(Whole(-3));
    assert_eq!((scaled.x, scaled.y), (Whole(-9), Whole(-12)));
    assert_eq!(a.dot(&b), Whole(22));
    assert_eq!(a.magnitude(), Whole(5));
    assert_eq!(b.magnitude(), Whole(7));
}

#[test]
fn test_normalize_divides_one_by_the_magnitude_first() {
    // One over five is zero in whole numbers, so every component becomes zero;
    // dividing the components by five would have kept none either, but dividing
    // by one would have.
    let unit = vector(1, 0).normalize();
    assert_eq!((unit.x, unit.y), (Whole(1), Whole(0)));
    let long = vector(3, 4).normalize();
    assert_eq!((long.x, long.y), (Whole(0), Whole(0)));
    let none = vector(0, 0).normalize();
    assert_eq!((none.x, none.y), (Whole(0), Whole(0)));
}

#[test]
fn test_force_is_scaled_by_the_reciprocal_of_the_mass() {
    // With a mass of two the reciprocal is zero in whole numbers: the force has
    // no effect, where dividing the force by the mass would have had one.
    let mut heavy = RigidBody::new(vector(0, 0), Whole(2), Shape::Circle { radius: Whole(1) });
    heavy.apply_force(vector(10, -6), Whole(3));
    assert_eq!((heavy.velocity.x, heavy.velocity.y), (Whole(0), Whole(0)));

    let mut light = RigidBody::new(vector(0, 0), Whole(1), Shape::Circle { radius: Whole(1) });
    light.apply_force(vector(10, -6), Whole(3));
    assert_eq!((light.velocity.x, light.velocity.y), (Whole(30), Whole(-18)));
    light.update(Whole(2));
    assert_eq!((light.position.x, light.position.y), (Whole(60), Whole(-36)));
}

#[test]
fn test_whole_world() {
    let mut world = World::new(vector(0, -10));
    world.step(Whole(1));
    assert_eq!(world.body_count(), 0);

    world.add_body(RigidBody::new(
        vector(0, 100),
        Whole(1),
        Shape::Rectangle { width: Whole(2), height: Whole(3) },
    ));
    world.add_body(RigidBody::new(vector(5, 5), Whole(0), Shape::Circle { radius: Whole(1) }));
    assert_eq!(world.body_count(), 2);

    world.step(Whole(2));
    world.step(Whole(2));

    // First step: velocity -20, position 100 - 40. Second: velocity -40,
    // position 60 - 80.
    let first = world.get_body(0).unwrap();
    assert_eq!((first.velocity.x, first.velocity.y), (Whole(0), Whole(-40)));
    assert_eq!((first.position.x, first.position.y), (Whole(0), Whole(-20)));
    // A body without mass has no weight, and one over nothing is nothing here.
    let second = world.get_body(1).unwrap();
    assert_eq!((second.velocity.x, second.velocity.y), (Whole(0), Whole(0)));
    assert_eq!((second.position.x, second.position.y), (Whole(5), Whole(5)));
    assert!(world.get_body(2).is_none());
    assert_eq!((world.gravity().x, world.gravity().y), (Whole(0), Whole(-10)));
}
