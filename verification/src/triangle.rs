use vstd::prelude::*;

use crate::error::GeometryError;
use crate::rational::{
    fits_i64, is_square, rat_eq, rat_half, rat_len, rat_mul, rat_recip, rat_zero, Rat, Rational,
};
use crate::vec3d::{
    v3_add, v3_add_in_range, v3_cross, v3_cross_in_range, v3_dot, v3_dot_in_range, v3_eq,
    v3_scale, v3_scale_in_range, v3_sub, v3_sub_in_range, v3_zero, Vec3d, V3,
};

verus! {

/// A passive carrier of a triangle's (non-normalized) normal vector, whose
/// magnitude equals twice the triangle's area. Produced only by a
/// non-degenerate [`Triangle`]; it exposes the normal and nothing more.
#[derive(Clone, Copy, Debug)]
pub struct Surface {
    /// The normal vector.
    pub n: Vec3d,
}

/// A triangle over three borrowed vertices. No ordering is enforced, and
/// degenerate configurations (coincident or collinear vertices) are valid
/// inputs with zero area.
pub struct Triangle<'a> {
    p1: &'a Vec3d,
    p2: &'a Vec3d,
    p3: &'a Vec3d,
}

impl<'a> View for Triangle<'a> {
    type V = (V3, V3, V3);

    closed spec fn view(&self) -> (V3, V3, V3) {
        (self.p1@, self.p2@, self.p3@)
    }
}

/// The cross product of a triangle's two edge vectors out of its first
/// vertex: its non-normalized normal, of magnitude twice its area.
pub open spec fn tri_cross(t: (V3, V3, V3)) -> V3 {
    v3_cross(v3_sub(t.1, t.0), v3_sub(t.2, t.0))
}

/// Whether every intermediate of a triangle's edge and cross computation
/// fits 64-bit machine words.
pub open spec fn tri_in_range(t: (V3, V3, V3)) -> bool {
    &&& v3_sub_in_range(t.1, t.0)
    &&& v3_sub_in_range(t.2, t.0)
    &&& v3_cross_in_range(v3_sub(t.1, t.0), v3_sub(t.2, t.0))
}

impl<'a> Triangle<'a> {
    /// Builds a triangle over three borrowed vertices; collinear or
    /// coincident vertices are acceptable.
    pub fn new(p1: &'a Vec3d, p2: &'a Vec3d, p3: &'a Vec3d) -> (r: Self)
        ensures
            r@ == (p1@, p2@, p3@),
    {
        Triangle { p1, p2, p3 }
    }

    /// The triangle's area: half the magnitude of the cross product of two
    /// edge vectors. `Some` exactly when that magnitude is rational;
    /// collinear or coincident vertices give exactly zero, a valid
    /// non-error outcome.
    pub fn area(&self) -> (r: Option<Rational>)
        requires
            tri_in_range(self@),
            v3_dot_in_range(tri_cross(self@), tri_cross(self@)),
            fits_i64(v3_dot(tri_cross(self@), tri_cross(self@)).d * 2),
        ensures
            ({
                let q = v3_dot(tri_cross(self@), tri_cross(self@));
                &&& (r is Some <==> is_square(q.n * q.d))
                &&& (r matches Some(a) ==> a@ == rat_mul(rat_len(q), rat_half()))
            }),
    {
        let ab = self.p2.sub(self.p1);
        let ac = self.p3.sub(self.p1);
        let cross = ab.cross(&ac);
        match cross.length() {
            Some(l) => {
                proof {
                    use_type_invariant(&l);
                }
                Some(l.mul(&Rational::new(1, 2)))
            },
            None => None,
        }
    }

    /// The barycentre: the componentwise average of the three vertices,
    /// valid for degenerate triangles too.
    pub fn barycentre(&self) -> (r: Vec3d)
        requires
            v3_add_in_range(self@.0, self@.1),
            v3_add_in_range(v3_add(self@.0, self@.1), self@.2),
            v3_scale_in_range(v3_add(v3_add(self@.0, self@.1), self@.2), (Rat { n: 1, d: 3 })),
        ensures
            r@ == v3_scale(v3_add(v3_add(self@.0, self@.1), self@.2), (Rat { n: 1, d: 3 })),
    {
        let three = Rational::from_int(3);
        let sum = self.p1.add(self.p2).add(self.p3);
        proof {
            assert(rat_recip(three@) == (Rat { n: 1, d: 3 }));
        }
        match sum.div(three) {
            Ok(r) => r,
            Err(_) => {
                proof {
                    assert(false);
                }
                sum
            },
        }
    }

    /// The triangle's outward (non-unit) normal, wrapped in a [`Surface`].
    /// Fails with [`GeometryError::DegenerateGeometry`] exactly when the
    /// edge cross product — and with it the area — is zero, that is, for
    /// collinear or coincident vertices, where no orientation is defined;
    /// every other triangle succeeds.
    pub fn surface(&self) -> (r: Result<Surface, GeometryError>)
        requires
            tri_in_range(self@),
        ensures
            r is Err <==> v3_eq(tri_cross(self@), v3_zero()),
            r is Err ==> r == Err::<Surface, GeometryError>(GeometryError::DegenerateGeometry),
            r matches Ok(s) ==> s.n@ == tri_cross(self@),
    {
        let ab = self.p2.sub(self.p1);
        let ac = self.p3.sub(self.p1);
        let n = ab.cross(&ac);
        proof {
            assert(n@ == tri_cross(self@));
            assert(rat_eq(n@.x, rat_zero()) <==> n@.x.n == 0);
            assert(rat_eq(n@.y, rat_zero()) <==> n@.y.n == 0);
            assert(rat_eq(n@.z, rat_zero()) <==> n@.z.n == 0);
        }
        if n.x.is_zero() && n.y.is_zero() && n.z.is_zero() {
            Err(GeometryError::DegenerateGeometry)
        } else {
            Ok(Surface { n })
        }
    }
}

} // verus!
