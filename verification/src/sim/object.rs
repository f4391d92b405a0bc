use crate::sim::scalar::Scalar;
use crate::sim::vec2::Vec2;
use vstd::prelude::*;

verus! {

/// One simulated point mass.
///
/// `acceleration` holds the net force that was last computed for the body;
/// the integration step divides it by the mass. A body with `constant_pos`
/// set is pinned: it attracts the others and never moves itself.
#[derive(Clone, Copy, Debug, PartialEq)]
pub struct Object<S: Scalar> {
    pub position: Vec2<S>,
    pub velocity: Vec2<S>,
    pub acceleration: Vec2<S>,
    pub constant_pos: bool,
    pub mass: S,
}

impl<S: Scalar> Object<S> {
    /// The radius of the body, `sqrt(mass)`.
    pub open spec fn spec_radius(self) -> S {
        self.mass.spec_sqrt()
    }

    /// The force with which `other` pulls on `self` under the gravitational
    /// constant `g`: `g * m_self * m_other * d / |d|^3`, where `d` leads from
    /// `self` to `other`.
    pub open spec fn spec_attraction(self, other: Object<S>, g: S) -> Vec2<S> {
        let d = other.position.spec_minus(self.position);
        let length = d.spec_magnitude();
        d.spec_times(g.spec_times(self.mass).spec_times(other.mass)).spec_over(
            length.spec_times(length).spec_times(length).spec_abs(),
        )
    }

    /// Whether the two bodies touch: their distance is less than the sum of
    /// their radii.
    pub open spec fn spec_overlaps(self, other: Object<S>) -> bool {
        Vec2::spec_dist_scalar(self.position, other.position).spec_less(
            self.spec_radius().spec_plus(other.spec_radius()),
        )
    }

    /// One semi-implicit Euler step under the force `force`: the velocity
    /// grows by `force / mass * dt`, and the position then moves by the new
    /// velocity times `dt`.
    pub open spec fn spec_pushed(self, force: Vec2<S>, dt: S) -> Object<S> {
        let velocity = self.velocity.spec_plus(force.spec_over(self.mass).spec_times(dt));
        Object { position: self.position.spec_plus(velocity.spec_times(dt)), velocity, ..self }
    }

    /// The body after a time step `dt` under its stored net force. A pinned
    /// body stays as it is.
    pub open spec fn spec_integrated(self, dt: S) -> Object<S> {
        if self.constant_pos {
            self
        } else {
            self.spec_pushed(self.acceleration, dt)
        }
    }

    /// The body that results when `self` swallows `other`: the masses add up,
    /// the velocity is the mass-weighted mean `(v1 * m1 + v2 * m2) / (m1 + m2)`,
    /// and everything else is kept from `self`.
    pub open spec fn spec_merged(self, other: Object<S>) -> Object<S> {
        Object {
            mass: self.mass.spec_plus(other.mass),
            velocity: self.velocity.spec_times(self.mass).spec_plus(
                other.velocity.spec_times(other.mass),
            ).spec_over(self.mass.spec_plus(other.mass)),
            ..self
        }
    }

    /// Whether a previewed body that moved from `previous` to its current
    /// position has run into `body`: either it overlaps `body` where it
    /// stands, or the midpoint of its last move lies within the radius of
    /// `body`, which catches a fast body that jumped across in one move.
    pub open spec fn spec_blocked_by(self, previous: Vec2<S>, body: Object<S>) -> bool {
        let midpoint = previous.spec_plus(self.position).spec_over(S::spec_from_u32(2));
        self.spec_overlaps(body) || Vec2::spec_dist_scalar(midpoint, body.position).spec_less(
            body.spec_radius(),
        )
    }

    pub fn radius(&self) -> (r: S)
        ensures
            r == self.spec_radius(),
    {
        self.mass.sqrt()
    }

    pub fn attraction(&self, other: &Object<S>, g: S) -> (force: Vec2<S>)
        ensures
            force == self.spec_attraction(*other, g),
    {
        let d = other.position - self.position;
        let length = d.magnitude();
        d * g.times(self.mass).times(other.mass) / length.times(length).times(length).abs()
    }

    pub fn overlaps(&self, other: &Object<S>) -> (r: bool)
        ensures
            r == self.spec_overlaps(*other),
    {
        Vec2::dist_scalar(self.position, other.position).less(self.radius().plus(other.radius()))
    }

    pub fn pushed(self, force: Vec2<S>, dt: S) -> (r: Object<S>)
        ensures
            r == self.spec_pushed(force, dt),
    {
        let velocity = self.velocity + force / self.mass * dt;
        Object { position: self.position + velocity * dt, velocity, ..self }
    }

    pub fn integrated(self, dt: S) -> (r: Object<S>)
        ensures
            r == self.spec_integrated(dt),
    {
        if self.constant_pos {
            self
        } else {
            self.pushed(self.acceleration, dt)
        }
    }

    pub fn merged(self, other: &Object<S>) -> (r: Object<S>)
        ensures
            r == self.spec_merged(*other),
    {
        let mass = self.mass.plus(other.mass);
        Object {
            mass,
            velocity: (self.velocity * self.mass + other.velocity * other.mass) / mass,
            ..self
        }
    }

    pub fn blocked_by(&self, previous: Vec2<S>, body: &Object<S>) -> (r: bool)
        ensures
            r == self.spec_blocked_by(previous, *body),
    {
        let midpoint = (previous + self.position) / S::from_u32(2);
        self.overlaps(body) || Vec2::dist_scalar(midpoint, body.position).less(body.radius())
    }
}

} // verus!
