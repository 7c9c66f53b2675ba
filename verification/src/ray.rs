//! Rays: a point of origin and a direction.
use crate::scalar::Scalar;
use crate::tuple::{Tuple, TupleView};
use vstd::prelude::*;

verus! {

/// A ray as mathematics: the views of its origin and of its direction.
pub struct RayView {
    pub origin: TupleView,
    pub direction: TupleView,
}

impl RayView {
    /// The origin is a point and the direction is a vector.
    pub open spec fn wf(self) -> bool {
        self.origin.is_point() && self.direction.is_vector()
    }

    /// Where the ray is at time `t`: the origin plus `t` times the direction.
    pub open spec fn position(self, t: int) -> TupleView {
        self.origin.plus(self.direction.scaled(t))
    }
}

/// A ray. Its origin is always a point and its direction always a vector.
#[derive(Clone, Copy, Debug)]
pub struct Ray {
    origin: Tuple,
    direction: Tuple,
}

impl View for Ray {
    type V = RayView;

    closed spec fn view(&self) -> RayView {
        RayView { origin: self.origin@, direction: self.direction@ }
    }
}

impl Ray {
    #[verifier::type_invariant]
    spec fn inv(&self) -> bool {
        self.origin@.is_point() && self.direction@.is_vector()
    }

    /// The ray from `origin` along `direction`. The origin must be a point
    /// and the direction a vector.
    pub fn new(origin: Tuple, direction: Tuple) -> (ray: Ray)
        requires
            origin@.is_point(),
            direction@.is_vector(),
        ensures
            ray@ == (RayView { origin: origin@, direction: direction@ }),
    {
        Ray { origin, direction }
    }

    /// The point where the ray starts.
    pub fn origin(&self) -> (t: Tuple)
        ensures
            t@ == self@.origin,
            t@.is_point(),
    {
        proof {
            use_type_invariant(self);
        }
        self.origin
    }

    /// The vector along which the ray runs.
    pub fn direction(&self) -> (t: Tuple)
        ensures
            t@ == self@.direction,
            t@.is_vector(),
    {
        proof {
            use_type_invariant(self);
        }
        self.direction
    }

    /// The point that the ray reaches at time `t`.
    pub fn position_at_time(&self, t: Scalar) -> (p: Tuple)
        ensures
            p@ == self@.position(t@),
    {
        self.origin + (self.direction * t)
    }
}

} // verus!
