use vstd::prelude::*;
use vstd::string::StringExecFns;

use crate::error::GeometryError;
use crate::rational::{
    is_square, lemma_pos_mul, rat_add, rat_add_in_range, rat_display, rat_div, rat_eq,
    rat_is_zero, rat_len, rat_mul, rat_mul_in_range, rat_one, rat_recip, rat_sub,
    rat_sub_in_range, rat_wf, rat_zero, Rat, Rational,
};

verus! {

/// Mathematical model of a vector: three scalar models.
pub struct V3 {
    /// First component.
    pub x: Rat,
    /// Second component.
    pub y: Rat,
    /// Third component.
    pub z: Rat,
}

/// A vector model is well formed when each component is.
pub open spec fn v3_wf(v: V3) -> bool {
    rat_wf(v.x) && rat_wf(v.y) && rat_wf(v.z)
}

/// Value equality of two vector models: componentwise value equality.
pub open spec fn v3_eq(a: V3, b: V3) -> bool {
    rat_eq(a.x, b.x) && rat_eq(a.y, b.y) && rat_eq(a.z, b.z)
}

/// The model of the zero vector.
pub open spec fn v3_zero() -> V3 {
    V3 { x: rat_zero(), y: rat_zero(), z: rat_zero() }
}

/// Componentwise exact sum.
pub open spec fn v3_add(a: V3, b: V3) -> V3 {
    V3 { x: rat_add(a.x, b.x), y: rat_add(a.y, b.y), z: rat_add(a.z, b.z) }
}

/// Componentwise exact difference.
pub open spec fn v3_sub(a: V3, b: V3) -> V3 {
    V3 { x: rat_sub(a.x, b.x), y: rat_sub(a.y, b.y), z: rat_sub(a.z, b.z) }
}

/// Uniform exact scaling of every component by `s`.
pub open spec fn v3_scale(v: V3, s: Rat) -> V3 {
    V3 { x: rat_mul(v.x, s), y: rat_mul(v.y, s), z: rat_mul(v.z, s) }
}

/// Exact dot product: the sum of the componentwise products.
pub open spec fn v3_dot(a: V3, b: V3) -> Rat {
    rat_add(rat_add(rat_mul(a.x, b.x), rat_mul(a.y, b.y)), rat_mul(a.z, b.z))
}

/// Exact right-handed cross product.
pub open spec fn v3_cross(a: V3, b: V3) -> V3 {
    V3 {
        x: rat_sub(rat_mul(a.y, b.z), rat_mul(a.z, b.y)),
        y: rat_sub(rat_mul(a.z, b.x), rat_mul(a.x, b.z)),
        z: rat_sub(rat_mul(a.x, b.y), rat_mul(a.y, b.x)),
    }
}

/// Whether every intermediate of a componentwise sum fits 64-bit words.
pub open spec fn v3_add_in_range(a: V3, b: V3) -> bool {
    &&& rat_add_in_range(a.x, b.x)
    &&& rat_add_in_range(a.y, b.y)
    &&& rat_add_in_range(a.z, b.z)
}

/// Whether every intermediate of a componentwise difference fits 64-bit
/// words.
pub open spec fn v3_sub_in_range(a: V3, b: V3) -> bool {
    &&& rat_sub_in_range(a.x, b.x)
    &&& rat_sub_in_range(a.y, b.y)
    &&& rat_sub_in_range(a.z, b.z)
}

/// Whether every intermediate of a uniform scaling fits 64-bit words.
pub open spec fn v3_scale_in_range(v: V3, s: Rat) -> bool {
    &&& rat_mul_in_range(v.x, s)
    &&& rat_mul_in_range(v.y, s)
    &&& rat_mul_in_range(v.z, s)
}

/// Whether every intermediate of a dot product fits 64-bit words.
pub open spec fn v3_dot_in_range(a: V3, b: V3) -> bool {
    &&& rat_mul_in_range(a.x, b.x)
    &&& rat_mul_in_range(a.y, b.y)
    &&& rat_mul_in_range(a.z, b.z)
    &&& rat_add_in_range(rat_mul(a.x, b.x), rat_mul(a.y, b.y))
    &&& rat_add_in_range(rat_add(rat_mul(a.x, b.x), rat_mul(a.y, b.y)), rat_mul(a.z, b.z))
}

/// Whether every intermediate of a cross product fits 64-bit words.
pub open spec fn v3_cross_in_range(a: V3, b: V3) -> bool {
    &&& rat_mul_in_range(a.y, b.z)
    &&& rat_mul_in_range(a.z, b.y)
    &&& rat_sub_in_range(rat_mul(a.y, b.z), rat_mul(a.z, b.y))
    &&& rat_mul_in_range(a.z, b.x)
    &&& rat_mul_in_range(a.x, b.z)
    &&& rat_sub_in_range(rat_mul(a.z, b.x), rat_mul(a.x, b.z))
    &&& rat_mul_in_range(a.x, b.y)
    &&& rat_mul_in_range(a.y, b.x)
    &&& rat_sub_in_range(rat_mul(a.x, b.y), rat_mul(a.y, b.x))
}

/// A three-component vector of exact rational scalars, representing a 3D
/// displacement or position. A value type with copy semantics; any scalar
/// values are accepted, the zero vector included.
#[derive(Clone, Copy, Debug)]
pub struct Vec3d {
    /// First component.
    pub x: Rational,
    /// Second component.
    pub y: Rational,
    /// Third component.
    pub z: Rational,
}

impl View for Vec3d {
    type V = V3;

    open spec fn view(&self) -> V3 {
        V3 { x: self.x@, y: self.y@, z: self.z@ }
    }
}

impl Vec3d {
    /// Builds the vector with the given components; no validation.
    pub fn new(x: Rational, y: Rational, z: Rational) -> (r: Self)
        ensures
            r@ == (V3 { x: x@, y: y@, z: z@ }),
    {
        Vec3d { x, y, z }
    }

    /// Componentwise exact sum.
    pub fn add(&self, rhs: &Self) -> (r: Self)
        requires
            v3_add_in_range(self@, rhs@),
        ensures
            r@ == v3_add(self@, rhs@),
    {
        Vec3d { x: self.x.add(&rhs.x), y: self.y.add(&rhs.y), z: self.z.add(&rhs.z) }
    }

    /// Componentwise exact difference.
    pub fn sub(&self, rhs: &Self) -> (r: Self)
        requires
            v3_sub_in_range(self@, rhs@),
        ensures
            r@ == v3_sub(self@, rhs@),
    {
        Vec3d { x: self.x.sub(&rhs.x), y: self.y.sub(&rhs.y), z: self.z.sub(&rhs.z) }
    }

    /// In-place accumulation: adds `rhs` to this vector componentwise.
    pub fn add_assign(&mut self, rhs: &Self)
        requires
            v3_add_in_range(old(self)@, rhs@),
        ensures
            final(self)@ == v3_add(old(self)@, rhs@),
    {
        self.x = self.x.add(&rhs.x);
        self.y = self.y.add(&rhs.y);
        self.z = self.z.add(&rhs.z);
    }

    /// In-place decrement: subtracts `rhs` from this vector componentwise.
    pub fn sub_assign(&mut self, rhs: &Self)
        requires
            v3_sub_in_range(old(self)@, rhs@),
        ensures
            final(self)@ == v3_sub(old(self)@, rhs@),
    {
        self.x = self.x.sub(&rhs.x);
        self.y = self.y.sub(&rhs.y);
        self.z = self.z.sub(&rhs.z);
    }

    /// Uniform exact scale by `factor`; scaling by zero yields the zero
    /// vector, with no failure mode.
    pub fn mul(&self, factor: Rational) -> (r: Self)
        requires
            v3_scale_in_range(self@, factor@),
        ensures
            r@ == v3_scale(self@, factor@),
    {
        Vec3d { x: self.x.mul(&factor), y: self.y.mul(&factor), z: self.z.mul(&factor) }
    }

    /// Exact dot product: the componentwise product sum.
    pub fn dot(&self, rhs: &Self) -> (r: Rational)
        requires
            v3_dot_in_range(self@, rhs@),
        ensures
            r@ == v3_dot(self@, rhs@),
    {
        self.x.mul(&rhs.x).add(&self.y.mul(&rhs.y)).add(&self.z.mul(&rhs.z))
    }

    /// Exact right-handed cross product. The result is value-equal to the
    /// zero vector exactly when the operands are parallel (the zero vector
    /// counting as parallel to everything).
    pub fn cross(&self, rhs: &Self) -> (r: Self)
        requires
            v3_cross_in_range(self@, rhs@),
        ensures
            r@ == v3_cross(self@, rhs@),
    {
        Vec3d {
            x: self.y.mul(&rhs.z).sub(&self.z.mul(&rhs.y)),
            y: self.z.mul(&rhs.x).sub(&self.x.mul(&rhs.z)),
            z: self.x.mul(&rhs.y).sub(&self.y.mul(&rhs.x)),
        }
    }
}

impl Vec3d {
    /// Euclidean norm: the exact square root of `dot(self, self)`. Returns
    /// `Some` exactly when that root is rational (the zero vector included,
    /// with norm zero), and `None` when the norm is irrational.
    pub fn length(&self) -> (r: Option<Rational>)
        requires
            v3_dot_in_range(self@, self@),
        ensures
            ({
                let q = v3_dot(self@, self@);
                &&& rat_wf(q)
                &&& (r is Some <==> is_square(q.n * q.d))
                &&& (r matches Some(l) ==> {
                    &&& l@ == rat_len(q)
                    &&& l@.n >= 0
                    &&& l@.n * l@.n == q.n * q.d
                    &&& (rat_is_zero(l@) <==> rat_is_zero(q))
                })
            }),
    {
        let q = self.dot(self);
        let r = q.sqrt();
        proof {
            use_type_invariant(&q);
            if r is Some {
                let l = r->Some_0;
                assert(rat_is_zero(l@) <==> rat_is_zero(q@)) by (nonlinear_arith)
                    requires
                        l@.n * l@.n == q@.n * q@.d,
                        q@.d > 0,
                ;
            }
        }
        r
    }

    /// Uniform exact division by a scalar. Fails with
    /// [`GeometryError::DivisionByZero`] exactly when the divisor is zero;
    /// any nonzero divisor succeeds, scaling by its reciprocal.
    pub fn div(&self, denominator: Rational) -> (r: Result<Self, GeometryError>)
        requires
            !rat_is_zero(denominator@) ==> {
                &&& denominator@.n != i64::MIN
                &&& v3_scale_in_range(self@, rat_recip(denominator@))
            },
        ensures
            r is Err <==> rat_is_zero(denominator@),
            r is Err ==> r == Err::<Vec3d, GeometryError>(GeometryError::DivisionByZero),
            r matches Ok(w) ==> w@ == v3_scale(self@, rat_recip(denominator@)),
    {
        if denominator.is_zero() {
            Err(GeometryError::DivisionByZero)
        } else {
            Ok(self.mul(denominator.recip()))
        }
    }

    /// Scales this vector to unit length. Fails with
    /// [`GeometryError::ZeroNormVector`] exactly when the vector's length is
    /// zero, so that no direction is defined; the underlying division
    /// failure is re-labeled into that norm-specific kind before surfacing.
    /// Any vector with a nonzero (rational) length succeeds.
    pub fn normalize(&self) -> (r: Result<Self, GeometryError>)
        requires
            v3_dot_in_range(self@, self@),
            is_square(v3_dot(self@, self@).n * v3_dot(self@, self@).d),
            !rat_is_zero(v3_dot(self@, self@)) ==> v3_scale_in_range(
                self@,
                rat_recip(rat_len(v3_dot(self@, self@))),
            ),
        ensures
            r is Err <==> rat_is_zero(v3_dot(self@, self@)),
            r is Err ==> r == Err::<Vec3d, GeometryError>(GeometryError::ZeroNormVector),
            r matches Ok(w) ==> w@ == v3_scale(self@, rat_recip(rat_len(v3_dot(self@, self@)))),
    {
        let len = match self.length() {
            Some(l) => l,
            None => {
                proof {
                    assert(false);
                }
                return Err(GeometryError::ZeroNormVector);
            },
        };
        match self.div(len) {
            Ok(w) => Ok(w),
            Err(_) => Err(GeometryError::ZeroNormVector),
        }
    }

    /// Renders this vector as `(x, y, z)` with each component fixed to two
    /// decimal digits.
    pub fn to_display_string(&self) -> (r: String)
        ensures
            r@ == v3_display(self@),
    {
        proof {
            reveal_strlit("(");
            reveal_strlit(", ");
            reveal_strlit(")");
        }
        let mut out = String::new();
        out.append("(");
        let sx = self.x.to_decimal_string();
        out.append(sx.as_str());
        out.append(", ");
        let sy = self.y.to_decimal_string();
        out.append(sy.as_str());
        out.append(", ");
        let sz = self.z.to_decimal_string();
        out.append(sz.as_str());
        out.append(")");
        proof {
            assert(out@ =~= v3_display(self@));
        }
        out
    }
}

/// The rendering of a vector: the two-decimal renderings of its components,
/// comma-separated and parenthesized.
pub open spec fn v3_display(v: V3) -> Seq<char> {
    seq!['('] + rat_display(v.x) + seq![',', ' '] + rat_display(v.y) + seq![',', ' ']
        + rat_display(v.z) + seq![')']
}

/// Law: scaling any vector by one yields a vector value-equal to the
/// original, and scaling it by zero yields the zero vector.
pub proof fn lemma_scale_one_zero(v: V3)
    requires
        v3_wf(v),
    ensures
        v3_eq(v3_scale(v, rat_one()), v),
        v3_eq(v3_scale(v, rat_zero()), v3_zero()),
{
}

/// Law: for any vector and any nonzero scalar, dividing the vector by the
/// scalar and scaling the result back by it yields a vector value-equal to
/// the original — rational arithmetic makes the round trip exact.
pub proof fn lemma_div_then_mul_cancels(v: V3, s: Rat)
    requires
        v3_wf(v),
        rat_wf(s),
        !rat_is_zero(s),
    ensures
        v3_eq(v3_scale(v3_scale(v, rat_recip(s)), s), v),
{
    lemma_rat_recip_mul_cancels(v.x, s);
    lemma_rat_recip_mul_cancels(v.y, s);
    lemma_rat_recip_mul_cancels(v.z, s);
}

/// Law: multiplying any scalar by the reciprocal of a nonzero scalar and
/// then by that scalar itself yields its original value.
pub proof fn lemma_rat_recip_mul_cancels(a: Rat, s: Rat)
    requires
        rat_wf(a),
        rat_wf(s),
        !rat_is_zero(s),
    ensures
        rat_eq(rat_mul(rat_mul(a, rat_recip(s)), s), a),
{
    if s.n >= 0 {
        assert(((a.n * s.d) * s.n) * a.d == a.n * ((a.d * s.n) * s.d)) by (nonlinear_arith);
    } else {
        assert(((a.n * -s.d) * s.n) * a.d == a.n * ((a.d * -s.n) * s.d)) by (nonlinear_arith);
    }
}

/// Law: the cross product of any vector with itself is value-equal to the
/// zero vector.
pub proof fn lemma_cross_self_is_zero(v: V3)
    requires
        v3_wf(v),
    ensures
        v3_eq(v3_cross(v, v), v3_zero()),
{
    assert((v.y.n * v.z.n) * (v.z.d * v.y.d) - (v.z.n * v.y.n) * (v.y.d * v.z.d) == 0)
        by (nonlinear_arith);
    assert((v.z.n * v.x.n) * (v.x.d * v.z.d) - (v.x.n * v.z.n) * (v.z.d * v.x.d) == 0)
        by (nonlinear_arith);
    assert((v.x.n * v.y.n) * (v.y.d * v.x.d) - (v.y.n * v.x.n) * (v.x.d * v.y.d) == 0)
        by (nonlinear_arith);
}

/// Law: the cross product of any vector with a scalar multiple of itself is
/// value-equal to the zero vector; the self-cross law is the multiplier-one
/// instance.
pub proof fn lemma_cross_scaled_self_is_zero(v: V3, k: Rat)
    requires
        v3_wf(v),
        rat_wf(k),
    ensures
        v3_eq(v3_cross(v, v3_scale(v, k)), v3_zero()),
{
    assert((v.y.n * (v.z.n * k.n)) * (v.z.d * (v.y.d * k.d)) - (v.z.n * (v.y.n * k.n)) * (v.y.d
        * (v.z.d * k.d)) == 0) by (nonlinear_arith);
    assert((v.z.n * (v.x.n * k.n)) * (v.x.d * (v.z.d * k.d)) - (v.x.n * (v.z.n * k.n)) * (v.z.d
        * (v.x.d * k.d)) == 0) by (nonlinear_arith);
    assert((v.x.n * (v.y.n * k.n)) * (v.y.d * (v.x.d * k.d)) - (v.y.n * (v.x.n * k.n)) * (v.x.d
        * (v.y.d * k.d)) == 0) by (nonlinear_arith);
}

/// Whether two vectors are parallel: one is a uniform scaling of the other
/// (the zero vector counting as parallel to everything, as zero times it).
pub open spec fn v3_parallel(a: V3, b: V3) -> bool {
    exists|k: Rat|
        rat_wf(k) && (v3_eq(b, v3_scale(a, k)) || v3_eq(a, v3_scale(b, k)))
}

/// For scalars `x`, `y` and components `bx`, `by` standing in the same
/// proportion (`x * by == y * bx` as values) with `x` nonzero, `by` is `y`
/// scaled by the ratio `bx / x`.
#[verifier::rlimit(100)]
proof fn lemma_scale_back(x: Rat, y: Rat, bx: Rat, by: Rat)
    requires
        rat_wf(x),
        rat_wf(y),
        rat_wf(bx),
        rat_wf(by),
        x.n != 0,
        rat_eq(rat_mul(x, by), rat_mul(y, bx)),
    ensures
        rat_eq(by, rat_mul(y, rat_div(bx, x))),
{
    if x.n >= 0 {
        assert(by.n * (y.d * (bx.d * x.n)) == (x.n * by.n) * (y.d * bx.d)) by (nonlinear_arith);
        assert((y.n * (bx.n * x.d)) * by.d == (y.n * bx.n) * (x.d * by.d)) by (nonlinear_arith);
    } else {
        assert(by.n * (y.d * (bx.d * -x.n)) == -((x.n * by.n) * (y.d * bx.d))) by (nonlinear_arith);
        assert((y.n * (bx.n * -x.d)) * by.d == -((y.n * bx.n) * (x.d * by.d))) by (nonlinear_arith);
    }
}

/// Law: the cross product of two vectors is value-equal to the zero vector
/// exactly when the vectors are parallel, either being the zero vector
/// included.
pub proof fn lemma_cross_zero_iff_parallel(a: V3, b: V3)
    requires
        v3_wf(a),
        v3_wf(b),
    ensures
        v3_eq(v3_cross(a, b), v3_zero()) <==> v3_parallel(a, b),
{
    if v3_eq(v3_cross(a, b), v3_zero()) {
        lemma_cross_zero_implies_parallel(a, b);
    }
    if v3_parallel(a, b) {
        lemma_parallel_implies_cross_zero(a, b);
    }
}

/// One direction of the parallelism law: a zero cross product means one
/// operand is a uniform scaling of the other.
proof fn lemma_cross_zero_implies_parallel(a: V3, b: V3)
    requires
        v3_wf(a),
        v3_wf(b),
        v3_eq(v3_cross(a, b), v3_zero()),
    ensures
        v3_parallel(a, b),
{
    // The three vanishing cross components state the pairwise proportions.
    lemma_sub_zero_means_eq(rat_mul(a.y, b.z), rat_mul(a.z, b.y));
    lemma_sub_zero_means_eq(rat_mul(a.z, b.x), rat_mul(a.x, b.z));
    lemma_sub_zero_means_eq(rat_mul(a.x, b.y), rat_mul(a.y, b.x));
    if a.x.n != 0 {
        let k = rat_div(b.x, a.x);
        lemma_pos_mul(b.x.d as int, rat_recip(a.x).d as int);
        lemma_scale_back(a.x, a.x, b.x, b.x);
        lemma_scale_back(a.x, a.y, b.x, b.y);
        lemma_scale_back(a.x, a.z, b.x, b.z);
        assert(rat_wf(k) && v3_eq(b, v3_scale(a, k)));
    } else if a.y.n != 0 {
        let k = rat_div(b.y, a.y);
        lemma_pos_mul(b.y.d as int, rat_recip(a.y).d as int);
        lemma_scale_back(a.y, a.x, b.y, b.x);
        lemma_scale_back(a.y, a.y, b.y, b.y);
        lemma_scale_back(a.y, a.z, b.y, b.z);
        assert(rat_wf(k) && v3_eq(b, v3_scale(a, k)));
    } else if a.z.n != 0 {
        let k = rat_div(b.z, a.z);
        lemma_pos_mul(b.z.d as int, rat_recip(a.z).d as int);
        lemma_scale_back(a.z, a.x, b.z, b.x);
        lemma_scale_back(a.z, a.y, b.z, b.y);
        lemma_scale_back(a.z, a.z, b.z, b.z);
        assert(rat_wf(k) && v3_eq(b, v3_scale(a, k)));
    } else {
        // `a` is the zero vector: it is zero times `b`.
        let k = rat_zero();
        assert(a.x.n * (b.x.d * 1) == (b.x.n * 0) * a.x.d) by (nonlinear_arith)
            requires
                a.x.n == 0,
        ;
        assert(a.y.n * (b.y.d * 1) == (b.y.n * 0) * a.y.d) by (nonlinear_arith)
            requires
                a.y.n == 0,
        ;
        assert(a.z.n * (b.z.d * 1) == (b.z.n * 0) * a.z.d) by (nonlinear_arith)
            requires
                a.z.n == 0,
        ;
        assert(rat_wf(k) && v3_eq(a, v3_scale(b, k)));
    }
}

/// A difference that is value-equal to zero means its operands are
/// value-equal.
proof fn lemma_sub_zero_means_eq(p: Rat, q: Rat)
    requires
        rat_eq(rat_sub(p, q), rat_zero()),
    ensures
        rat_eq(p, q),
{
    assert(p.n * q.d == q.n * p.d) by (nonlinear_arith)
        requires
            (p.n * q.d - q.n * p.d) * 1 == 0 * (p.d * q.d),
    ;
}

/// The other direction of the parallelism law: scalings have a zero cross
/// product.
proof fn lemma_parallel_implies_cross_zero(a: V3, b: V3)
    requires
        v3_wf(a),
        v3_wf(b),
        v3_parallel(a, b),
    ensures
        v3_eq(v3_cross(a, b), v3_zero()),
{
    let k = choose|k: Rat|
        rat_wf(k) && (v3_eq(b, v3_scale(a, k)) || v3_eq(a, v3_scale(b, k)));
    if v3_eq(b, v3_scale(a, k)) {
        lemma_scaled_cross_component(a.y, a.z, b.y, b.z, k);
        lemma_scaled_cross_component(a.z, a.x, b.z, b.x, k);
        lemma_scaled_cross_component(a.x, a.y, b.x, b.y, k);
    } else {
        lemma_scaled_cross_component_rev(b.y, b.z, a.y, a.z, k);
        lemma_scaled_cross_component_rev(b.z, b.x, a.z, a.x, k);
        lemma_scaled_cross_component_rev(b.x, b.y, a.x, a.y, k);
    }
}

/// One component of the cross product of a vector with a scaling of itself
/// vanishes: if `bu` and `bv` are `u` and `v` scaled by the same `k` (as
/// values), then `u * bv == v * bu`.
#[verifier::rlimit(100)]
proof fn lemma_scaled_cross_component(u: Rat, v: Rat, bu: Rat, bv: Rat, k: Rat)
    requires
        rat_wf(u),
        rat_wf(v),
        rat_wf(bu),
        rat_wf(bv),
        rat_wf(k),
        rat_eq(bu, rat_mul(u, k)),
        rat_eq(bv, rat_mul(v, k)),
    ensures
        rat_eq(rat_mul(u, bv), rat_mul(v, bu)),
{
    let x1 = (u.n * bv.n) * (v.d * bu.d);
    let y1 = (v.n * bu.n) * (u.d * bv.d);
    assert((x1 - y1) * k.d == x1 * k.d - y1 * k.d) by (nonlinear_arith);
    assert(x1 * k.d == (u.n * bu.d) * (bv.n * (v.d * k.d))) by (nonlinear_arith)
        requires
            x1 == (u.n * bv.n) * (v.d * bu.d),
    ;
    assert(y1 * k.d == (v.n * bv.d) * (bu.n * (u.d * k.d))) by (nonlinear_arith)
        requires
            y1 == (v.n * bu.n) * (u.d * bv.d),
    ;
    assert((u.n * bu.d) * ((v.n * k.n) * bv.d) == (v.n * bv.d) * ((u.n * k.n) * bu.d))
        by (nonlinear_arith);
    assert((x1 - y1) * k.d == 0);
    assert(x1 == y1) by (nonlinear_arith)
        requires
            (x1 - y1) * k.d == 0,
            k.d > 0,
    ;
}

/// The mirror image of [`lemma_scaled_cross_component`], for the case where
/// `au` and `av` are the scaled values: if `au` and `av` are `u` and `v`
/// scaled by the same `k` (as values), then `au * v == av * u`.
#[verifier::rlimit(100)]
proof fn lemma_scaled_cross_component_rev(u: Rat, v: Rat, au: Rat, av: Rat, k: Rat)
    requires
        rat_wf(u),
        rat_wf(v),
        rat_wf(au),
        rat_wf(av),
        rat_wf(k),
        rat_eq(au, rat_mul(u, k)),
        rat_eq(av, rat_mul(v, k)),
    ensures
        rat_eq(rat_mul(au, v), rat_mul(av, u)),
{
    let x1 = (au.n * v.n) * (av.d * u.d);
    let y1 = (av.n * u.n) * (au.d * v.d);
    assert((x1 - y1) * k.d == x1 * k.d - y1 * k.d) by (nonlinear_arith);
    assert(x1 * k.d == (v.n * av.d) * (au.n * (u.d * k.d))) by (nonlinear_arith)
        requires
            x1 == (au.n * v.n) * (av.d * u.d),
    ;
    assert(y1 * k.d == (u.n * au.d) * (av.n * (v.d * k.d))) by (nonlinear_arith)
        requires
            y1 == (av.n * u.n) * (au.d * v.d),
    ;
    assert((v.n * av.d) * ((u.n * k.n) * au.d) == (u.n * au.d) * ((v.n * k.n) * av.d))
        by (nonlinear_arith);
    assert((x1 - y1) * k.d == 0);
    assert(x1 == y1) by (nonlinear_arith)
        requires
            (x1 - y1) * k.d == 0,
            k.d > 0,
    ;
}

/// Law: the squared norm of a vector — the dot product with itself — is
/// zero exactly when the vector is value-equal to the zero vector, so the
/// zero vector is the only vector of zero length.
pub proof fn lemma_norm_sq_zero_iff_zero(v: V3)
    requires
        v3_wf(v),
    ensures
        rat_is_zero(v3_dot(v, v)) <==> v3_eq(v, v3_zero()),
{
    assert(((v.x.n * v.x.n) * (v.y.d * v.y.d) + (v.y.n * v.y.n) * (v.x.d * v.x.d)) * (v.z.d
        * v.z.d) + (v.z.n * v.z.n) * ((v.x.d * v.x.d) * (v.y.d * v.y.d)) == 0 <==> (v.x.n == 0
        && v.y.n == 0 && v.z.n == 0)) by (nonlinear_arith)
        requires
            v.x.d > 0,
            v.y.d > 0,
            v.z.d > 0,
    ;
}

/// Law: subtracting any vector from itself yields the zero vector, and for
/// a vector that is not value-equal to zero, that difference is not
/// value-equal to the original operand.
pub proof fn lemma_sub_self_is_zero(v: V3)
    requires
        v3_wf(v),
    ensures
        v3_eq(v3_sub(v, v), v3_zero()),
        !v3_eq(v, v3_zero()) ==> !v3_eq(v3_sub(v, v), v),
{
    if v3_eq(v3_sub(v, v), v) {
        assert(v.x.n == 0) by (nonlinear_arith)
            requires
                0 == v.x.n * (v.x.d * v.x.d),
                v.x.d > 0,
        ;
        assert(v.y.n == 0) by (nonlinear_arith)
            requires
                0 == v.y.n * (v.y.d * v.y.d),
                v.y.d > 0,
        ;
        assert(v.z.n == 0) by (nonlinear_arith)
            requires
                0 == v.z.n * (v.z.d * v.z.d),
                v.z.d > 0,
        ;
    }
}

impl PartialEq for Vec3d {
    fn eq(&self, other: &Self) -> (r: bool) {
        self.x == other.x && self.y == other.y && self.z == other.z
    }
}

impl vstd::std_specs::cmp::PartialEqSpecImpl for Vec3d {
    open spec fn obeys_eq_spec() -> bool {
        true
    }

    open spec fn eq_spec(&self, other: &Self) -> bool {
        v3_eq(self@, other@)
    }
}

} // verus!
