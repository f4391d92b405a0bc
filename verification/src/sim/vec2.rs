use crate::sim::scalar::Scalar;
use vstd::prelude::*;

verus! {

/// A vector in the plane. It can be added to and subtracted from another
/// vector, negated, and multiplied or divided by a scalar; every operation
/// works component by component.
#[derive(Debug, Copy, Clone, PartialEq)]
pub struct Vec2<S: Scalar> {
    pub x: S,
    pub y: S,
}

impl<S: Scalar> Vec2<S> {
    /// The vector whose components are both zero.
    pub open spec fn spec_zero() -> Vec2<S> {
        Vec2 { x: S::spec_from_u32(0), y: S::spec_from_u32(0) }
    }

    /// The sum of two vectors.
    pub open spec fn spec_plus(self, rhs: Vec2<S>) -> Vec2<S> {
        Vec2 { x: self.x.spec_plus(rhs.x), y: self.y.spec_plus(rhs.y) }
    }

    /// The difference of two vectors.
    pub open spec fn spec_minus(self, rhs: Vec2<S>) -> Vec2<S> {
        Vec2 { x: self.x.spec_minus(rhs.x), y: self.y.spec_minus(rhs.y) }
    }

    /// The vector multiplied by a scalar.
    pub open spec fn spec_times(self, rhs: S) -> Vec2<S> {
        Vec2 { x: self.x.spec_times(rhs), y: self.y.spec_times(rhs) }
    }

    /// The vector divided by a scalar.
    pub open spec fn spec_over(self, rhs: S) -> Vec2<S> {
        Vec2 { x: self.x.spec_over(rhs), y: self.y.spec_over(rhs) }
    }

    /// The opposite vector.
    pub open spec fn spec_neg(self) -> Vec2<S> {
        Vec2 { x: self.x.spec_neg(), y: self.y.spec_neg() }
    }

    /// The Euclidean length `sqrt(x * x + y * y)`.
    pub open spec fn spec_magnitude(self) -> S {
        self.x.spec_times(self.x).spec_plus(self.y.spec_times(self.y)).spec_sqrt()
    }

    /// The vector divided by its own length.
    pub open spec fn spec_normalize(self) -> Vec2<S> {
        self.spec_over(self.spec_magnitude())
    }

    /// The vector of the absolute values of the components.
    pub open spec fn spec_abs(self) -> Vec2<S> {
        Vec2 { x: self.x.spec_abs(), y: self.y.spec_abs() }
    }

    /// The Euclidean distance between two points: the length of `a - b`.
    pub open spec fn spec_dist_scalar(a: Vec2<S>, b: Vec2<S>) -> S {
        a.spec_minus(b).spec_magnitude()
    }

    pub fn zero() -> (r: Vec2<S>)
        ensures
            r == Self::spec_zero(),
    {
        Vec2 { x: S::from_u32(0), y: S::from_u32(0) }
    }

    /// Scales the vector to unit length. Nothing guards a zero length: the
    /// result is then whatever the scalar type makes of a division by zero.
    pub fn normalize(&self) -> (r: Vec2<S>)
        ensures
            r == self.spec_normalize(),
    {
        let length = self.magnitude();
        Vec2 { x: self.x.over(length), y: self.y.over(length) }
    }

    pub fn magnitude(&self) -> (r: S)
        ensures
            r == self.spec_magnitude(),
    {
        self.x.times(self.x).plus(self.y.times(self.y)).sqrt()
    }

    pub fn abs(self) -> (r: Vec2<S>)
        ensures
            r == self.spec_abs(),
    {
        Vec2 { x: self.x.abs(), y: self.y.abs() }
    }

    pub fn from_arr(v: [S; 2]) -> (r: Vec2<S>)
        ensures
            r == (Vec2 { x: v@[0], y: v@[1] }),
    {
        Vec2 { x: v[0], y: v[1] }
    }

    pub fn dist_scalar(a: Vec2<S>, b: Vec2<S>) -> (r: S)
        ensures
            r == Self::spec_dist_scalar(a, b),
    {
        let dx = a.x.minus(b.x);
        let dy = a.y.minus(b.y);
        dx.times(dx).plus(dy.times(dy)).sqrt()
    }
}

impl<S: Scalar> core::ops::Add<Vec2<S>> for Vec2<S> {
    type Output = Vec2<S>;

    fn add(self, rhs: Vec2<S>) -> (r: Vec2<S>)
        ensures
            r == self.spec_plus(rhs),
    {
        Vec2 { x: self.x.plus(rhs.x), y: self.y.plus(rhs.y) }
    }
}

impl<S: Scalar> vstd::std_specs::ops::AddSpecImpl<Vec2<S>> for Vec2<S> {
    open spec fn obeys_add_spec() -> bool {
        true
    }

    open spec fn add_req(self, rhs: Vec2<S>) -> bool {
        true
    }

    open spec fn add_spec(self, rhs: Vec2<S>) -> Vec2<S> {
        self.spec_plus(rhs)
    }
}

impl<S: Scalar> core::ops::Sub<Vec2<S>> for Vec2<S> {
    type Output = Vec2<S>;

    fn sub(self, rhs: Vec2<S>) -> (r: Vec2<S>)
        ensures
            r == self.spec_minus(rhs),
    {
        Vec2 { x: self.x.minus(rhs.x), y: self.y.minus(rhs.y) }
    }
}

impl<S: Scalar> vstd::std_specs::ops::SubSpecImpl<Vec2<S>> for Vec2<S> {
    open spec fn obeys_sub_spec() -> bool {
        true
    }

    open spec fn sub_req(self, rhs: Vec2<S>) -> bool {
        true
    }

    open spec fn sub_spec(self, rhs: Vec2<S>) -> Vec2<S> {
        self.spec_minus(rhs)
    }
}

impl<S: Scalar> core::ops::Mul<S> for Vec2<S> {
    type Output = Vec2<S>;

    fn mul(self, rhs: S) -> (r: Vec2<S>)
        ensures
            r == self.spec_times(rhs),
    {
        Vec2 { x: self.x.times(rhs), y: self.y.times(rhs) }
    }
}

impl<S: Scalar> vstd::std_specs::ops::MulSpecImpl<S> for Vec2<S> {
    open spec fn obeys_mul_spec() -> bool {
        true
    }

    open spec fn mul_req(self, rhs: S) -> bool {
        true
    }

    open spec fn mul_spec(self, rhs: S) -> Vec2<S> {
        self.spec_times(rhs)
    }
}

impl<S: Scalar> core::ops::Div<S> for Vec2<S> {
    type Output = Vec2<S>;

    fn div(self, rhs: S) -> (r: Vec2<S>)
        ensures
            r == self.spec_over(rhs),
    {
        Vec2 { x: self.x.over(rhs), y: self.y.over(rhs) }
    }
}

impl<S: Scalar> vstd::std_specs::ops::DivSpecImpl<S> for Vec2<S> {
    open spec fn obeys_div_spec() -> bool {
        true
    }

    open spec fn div_req(self, rhs: S) -> bool {
        true
    }

    open spec fn div_spec(self, rhs: S) -> Vec2<S> {
        self.spec_over(rhs)
    }
}

impl<S: Scalar> core::ops::Neg for Vec2<S> {
    type Output = Vec2<S>;

    fn neg(self) -> (r: Vec2<S>)
        ensures
            r == self.spec_neg(),
    {
        Vec2 { x: self.x.neg(), y: self.y.neg() }
    }
}

impl<S: Scalar> vstd::std_specs::ops::NegSpecImpl for Vec2<S> {
    open spec fn obeys_neg_spec() -> bool {
        true
    }

    open spec fn neg_req(self) -> bool {
        true
    }

    open spec fn neg_spec(self) -> Vec2<S> {
        self.spec_neg()
    }
}

impl<S: Scalar> core::ops::AddAssign<Vec2<S>> for Vec2<S> {
    fn add_assign(&mut self, other: Vec2<S>)
        ensures
            *final(self) == old(self).spec_plus(other),
    {
        *self = *self + other
    }
}

impl<S: Scalar> core::ops::SubAssign<Vec2<S>> for Vec2<S> {
    fn sub_assign(&mut self, rhs: Vec2<S>)
        ensures
            *final(self) == old(self).spec_minus(rhs),
    {
        *self = *self - rhs
    }
}

impl<S: Scalar> core::ops::MulAssign<S> for Vec2<S> {
    fn mul_assign(&mut self, rhs: S)
        ensures
            *final(self) == old(self).spec_times(rhs),
    {
        *self = *self * rhs
    }
}

} // verus!
