use vstd::prelude::*;

use crate::rational::{is_square, rat_half, rat_len, Rational};
use crate::vec3d::{
    v3_add, v3_add_in_range, v3_dot, v3_dot_in_range, v3_scale, v3_scale_in_range, v3_sub,
    v3_sub_in_range, Vec3d, V3,
};

verus! {

/// A line in direction form: it owns a single vector, the directed
/// difference between two points (or an arbitrary direction), without the
/// endpoints' absolute positions.
pub struct Line {
    /// The direction (or offset) vector.
    pub v: Vec3d,
}

impl Line {
    /// Builds a line from a borrowed direction vector, copying it.
    pub fn from_ref(v: &Vec3d) -> (r: Self)
        ensures
            r.v@ == v@,
    {
        Line { v: v.clone() }
    }

    /// Builds a line that takes ownership of the direction vector.
    pub fn from(v: Vec3d) -> (r: Self)
        ensures
            r.v@ == v@,
    {
        Line { v }
    }

    /// The length of the line: the norm of its direction vector. `Some`
    /// exactly when that norm is rational.
    pub fn length(&self) -> (r: Option<Rational>)
        requires
            v3_dot_in_range(self.v@, self.v@),
        ensures
            ({
                let q = v3_dot(self.v@, self.v@);
                &&& (r is Some <==> is_square(q.n * q.d))
                &&& (r matches Some(l) ==> l@ == rat_len(q) && l@.n >= 0 && l@.n * l@.n == q.n
                    * q.d)
            }),
    {
        self.v.length()
    }

    /// The direction vector scaled by one half. A caller that built this
    /// line from two endpoints recovers the segment's midpoint by adding the
    /// retained second endpoint; the direction form alone carries no
    /// absolute position.
    pub fn middle_point(&self) -> (r: Vec3d)
        requires
            v3_scale_in_range(self.v@, rat_half()),
        ensures
            r@ == v3_scale(self.v@, rat_half()),
    {
        let half = Rational::new(1, 2);
        self.v.mul(half)
    }
}

/// A line segment in reference form: it borrows its two endpoints, whose
/// absolute positions stay available. Coincident endpoints are a valid,
/// zero-length segment.
pub struct LineRef<'a> {
    p1: &'a Vec3d,
    p2: &'a Vec3d,
}

impl<'a> View for LineRef<'a> {
    type V = (V3, V3);

    closed spec fn view(&self) -> (V3, V3) {
        (self.p1@, self.p2@)
    }
}

impl<'a> LineRef<'a> {
    /// Builds a segment over two borrowed endpoints; no validation.
    pub fn new(p1: &'a Vec3d, p2: &'a Vec3d) -> (r: Self)
        ensures
            r@ == (p1@, p2@),
    {
        LineRef { p1, p2 }
    }

    /// The Euclidean distance between the two endpoints. `Some` exactly when
    /// that distance is rational; coincident endpoints give zero.
    pub fn length(&self) -> (r: Option<Rational>)
        requires
            v3_sub_in_range(self@.0, self@.1),
            v3_dot_in_range(v3_sub(self@.0, self@.1), v3_sub(self@.0, self@.1)),
        ensures
            ({
                let q = v3_dot(v3_sub(self@.0, self@.1), v3_sub(self@.0, self@.1));
                &&& (r is Some <==> is_square(q.n * q.d))
                &&& (r matches Some(l) ==> l@ == rat_len(q) && l@.n >= 0 && l@.n * l@.n == q.n
                    * q.d)
            }),
    {
        let tmp = self.p1.sub(self.p2);
        tmp.length()
    }

    /// The midpoint of the segment: the componentwise average of the two
    /// endpoints, computed as their sum scaled by one half.
    pub fn middle_point(&self) -> (r: Vec3d)
        requires
            v3_add_in_range(self@.0, self@.1),
            v3_scale_in_range(v3_add(self@.0, self@.1), rat_half()),
        ensures
            r@ == v3_scale(v3_add(self@.0, self@.1), rat_half()),
    {
        let half = Rational::new(1, 2);
        self.p1.add(self.p2).mul(half)
    }

    /// Converts to the direction form: the difference of the two endpoints,
    /// discarding their absolute positions while preserving length and
    /// orientation.
    pub fn to_line(&self) -> (r: Line)
        requires
            v3_sub_in_range(self@.0, self@.1),
        ensures
            r.v@ == v3_sub(self@.0, self@.1),
    {
        Line { v: self.p1.sub(self.p2) }
    }
}

} // verus!
