use vstd::prelude::*;
use vstd::string::StringExecFns;

use crate::error::GeometryError;

verus! {

/// Mathematical model of a scalar: a fraction of unbounded integers with a
/// positive denominator. Two models stand for the same scalar value exactly
/// when [`rat_eq`] holds of them.
pub struct Rat {
    /// Numerator.
    pub n: int,
    /// Denominator; well-formed models keep it positive.
    pub d: int,
}

/// A model is well formed when its denominator is positive.
pub open spec fn rat_wf(a: Rat) -> bool {
    a.d > 0
}

/// Value equality of two fractions: `a.n / a.d == b.n / b.d`, stated by
/// cross-multiplication so it needs no division.
pub open spec fn rat_eq(a: Rat, b: Rat) -> bool {
    a.n * b.d == b.n * a.d
}

/// The model of the scalar zero.
pub open spec fn rat_zero() -> Rat {
    Rat { n: 0, d: 1 }
}

/// The model of the scalar one.
pub open spec fn rat_one() -> Rat {
    Rat { n: 1, d: 1 }
}

/// The model of the scalar one half.
pub open spec fn rat_half() -> Rat {
    Rat { n: 1, d: 2 }
}

/// A well-formed fraction is a zero value exactly when its numerator is zero.
pub open spec fn rat_is_zero(a: Rat) -> bool {
    a.n == 0
}

/// Exact sum of two fractions.
pub open spec fn rat_add(a: Rat, b: Rat) -> Rat {
    Rat { n: a.n * b.d + b.n * a.d, d: a.d * b.d }
}

/// Exact difference of two fractions.
pub open spec fn rat_sub(a: Rat, b: Rat) -> Rat {
    Rat { n: a.n * b.d - b.n * a.d, d: a.d * b.d }
}

/// Exact product of two fractions.
pub open spec fn rat_mul(a: Rat, b: Rat) -> Rat {
    Rat { n: a.n * b.n, d: a.d * b.d }
}

/// Exact reciprocal of a nonzero fraction, with the sign moved into the
/// numerator so the denominator stays positive.
pub open spec fn rat_recip(a: Rat) -> Rat {
    if a.n >= 0 {
        Rat { n: a.d, d: a.n }
    } else {
        Rat { n: -a.d, d: -a.n }
    }
}

/// Exact quotient `a / b` of two fractions, `b` nonzero.
pub open spec fn rat_div(a: Rat, b: Rat) -> Rat {
    rat_mul(a, rat_recip(b))
}

/// Whether `x` fits in a 64-bit signed machine word.
pub open spec fn fits_i64(x: int) -> bool {
    i64::MIN <= x <= i64::MAX
}

/// Whether the exact sum of `a` and `b`, and every product computed on the
/// way to it, fits in 64-bit machine words.
pub open spec fn rat_add_in_range(a: Rat, b: Rat) -> bool {
    &&& fits_i64(a.n * b.d)
    &&& fits_i64(b.n * a.d)
    &&& fits_i64(a.n * b.d + b.n * a.d)
    &&& fits_i64(a.d * b.d)
}

/// Whether the exact difference of `a` and `b`, and every product computed
/// on the way to it, fits in 64-bit machine words.
pub open spec fn rat_sub_in_range(a: Rat, b: Rat) -> bool {
    &&& fits_i64(a.n * b.d)
    &&& fits_i64(b.n * a.d)
    &&& fits_i64(a.n * b.d - b.n * a.d)
    &&& fits_i64(a.d * b.d)
}

/// Whether the exact product of `a` and `b` fits in 64-bit machine words.
pub open spec fn rat_mul_in_range(a: Rat, b: Rat) -> bool {
    &&& fits_i64(a.n * b.n)
    &&& fits_i64(a.d * b.d)
}

/// Whether the exact quotient `a / b` fits in 64-bit machine words; the
/// reciprocal of `b` must itself be representable.
pub open spec fn rat_div_in_range(a: Rat, b: Rat) -> bool {
    &&& b.n != i64::MIN
    &&& rat_mul_in_range(a, rat_recip(b))
}

/// The product of two integers each bounded by `m` in magnitude is bounded
/// by `m * m` in magnitude.
pub proof fn lemma_prod_range(a: int, b: int, m: int)
    requires
        -m <= a <= m,
        -m <= b <= m,
        0 <= m,
    ensures
        -(m * m) <= a * b <= m * m,
{
    assert(-(m * m) <= a * b <= m * m) by (nonlinear_arith)
        requires
            -m <= a <= m,
            -m <= b <= m,
            0 <= m,
    ;
}

/// An exact scalar: a rational number held as a 64-bit numerator and a
/// positive 64-bit denominator. The fraction is not kept reduced; equality
/// compares values by cross-multiplication, not representations.
#[derive(Clone, Copy, Debug)]
pub struct Rational {
    num: i64,
    den: i64,
}

impl View for Rational {
    type V = Rat;

    closed spec fn view(&self) -> Rat {
        Rat { n: self.num as int, d: self.den as int }
    }
}

impl Rational {
    #[verifier::type_invariant]
    pub(crate) open spec fn inv(self) -> bool {
        rat_wf(self@) && fits_i64(self@.n) && fits_i64(self@.d)
    }

    /// Builds the scalar `num / den`. The denominator must be positive; a
    /// negative value carries its sign in the numerator.
    pub fn new(num: i64, den: i64) -> (r: Self)
        requires
            den > 0,
        ensures
            r@ == (Rat { n: num as int, d: den as int }),
    {
        Rational { num, den }
    }

    /// Builds the scalar with the integer value `n`.
    pub fn from_int(n: i64) -> (r: Self)
        ensures
            r@ == (Rat { n: n as int, d: 1int }),
    {
        Rational { num: n, den: 1 }
    }

    /// Reports whether this scalar is exactly zero.
    pub fn is_zero(&self) -> (r: bool)
        ensures
            r == rat_is_zero(self@),
    {
        self.num == 0
    }

    /// Renders this scalar with exactly two digits after the decimal point,
    /// rounding to the nearest hundredth with ties away from zero.
    pub fn to_decimal_string(&self) -> (r: String)
        ensures
            r@ == rat_display(self@),
    {
        proof {
            use_type_invariant(self);
        }
        let mag: u128 = if self.num < 0 {
            (-(self.num as i128)) as u128
        } else {
            self.num as u128
        };
        assert(mag == vstd::math::abs(self@.n));
        let h: u128 = (200 * mag + self.den as u128) / (2 * (self.den as u128));
        assert(h == abs_hundredths(self@));
        let mut out = String::new();
        if self.num < 0 && h != 0 {
            proof {
                reveal_strlit("-");
            }
            out.append("-");
        }
        push_dec_digits(&mut out, h / 100);
        proof {
            reveal_strlit(".");
        }
        out.append(".");
        let rem: u128 = h % 100;
        out.append(digit_str(rem / 10));
        out.append(digit_str(rem % 10));
        proof {
            assert(out@ =~= rat_display(self@));
        }
        out
    }

    /// Exact sum of two scalars.
    pub fn add(&self, other: &Self) -> (r: Self)
        requires
            rat_add_in_range(self@, other@),
        ensures
            r@ == rat_add(self@, other@),
    {
        proof {
            use_type_invariant(self);
            use_type_invariant(other);
            lemma_pos_mul(self.den as int, other.den as int);
        }
        Rational {
            num: self.num * other.den + other.num * self.den,
            den: self.den * other.den,
        }
    }

    /// Exact difference of two scalars.
    pub fn sub(&self, other: &Self) -> (r: Self)
        requires
            rat_sub_in_range(self@, other@),
        ensures
            r@ == rat_sub(self@, other@),
    {
        proof {
            use_type_invariant(self);
            use_type_invariant(other);
            lemma_pos_mul(self.den as int, other.den as int);
        }
        Rational {
            num: self.num * other.den - other.num * self.den,
            den: self.den * other.den,
        }
    }

    /// Exact product of two scalars.
    pub fn mul(&self, other: &Self) -> (r: Self)
        requires
            rat_mul_in_range(self@, other@),
        ensures
            r@ == rat_mul(self@, other@),
    {
        proof {
            use_type_invariant(self);
            use_type_invariant(other);
            lemma_pos_mul(self.den as int, other.den as int);
        }
        Rational { num: self.num * other.num, den: self.den * other.den }
    }

    /// Exact reciprocal of a nonzero scalar: the fraction turned upside
    /// down, with the sign kept in the numerator.
    pub(crate) fn recip(&self) -> (r: Self)
        requires
            !rat_is_zero(self@),
            self@.n != i64::MIN,
        ensures
            r@ == rat_recip(self@),
    {
        proof {
            use_type_invariant(self);
        }
        if self.num >= 0 {
            Rational { num: self.den, den: self.num }
        } else {
            Rational { num: -self.den, den: -self.num }
        }
    }

    /// Exact square root. Returns the unique nonnegative scalar whose square
    /// is `self` when such a scalar exists, and `None` otherwise (for
    /// negative inputs, and for values whose root is irrational).
    ///
    /// A fraction `n / d` with `d > 0` has an exact root of the form
    /// `r / d` exactly when `n * d` is a perfect square, since
    /// `n / d == (n * d) / (d * d)`.
    pub fn sqrt(&self) -> (r: Option<Self>)
        ensures
            r is Some <==> is_square(self@.n * self@.d),
            r matches Some(s) ==> {
                &&& s@ == rat_len(self@)
                &&& s@.n >= 0
                &&& s@.n * s@.n == self@.n * self@.d
            },
    {
        proof {
            use_type_invariant(self);
        }
        if self.num < 0 {
            proof {
                assert(self@.n * self@.d < 0) by (nonlinear_arith)
                    requires
                        self@.n < 0,
                        self@.d > 0,
                ;
                assert forall|q: int| 0 <= q implies #[trigger] (q * q) != self@.n * self@.d by {
                    assert(q * q >= 0) by (nonlinear_arith)
                        requires
                            0 <= q,
                    ;
                }
            }
            return None;
        }
        proof {
            lemma_prod_range(self.num as int, self.den as int, i64::MAX as int);
        }
        let p: u128 = (self.num as u128) * (self.den as u128);
        assert(p == self@.n * self@.d);
        let root: u128 = isqrt_u128(p);
        if root * root == p {
            proof {
                assert(root <= i64::MAX) by (nonlinear_arith)
                    requires
                        root * root == p,
                        p <= (i64::MAX as int) * (i64::MAX as int),
                        root >= 0,
                ;
                lemma_int_sqrt_unique(p as int, root as int);
            }
            Some(Rational { num: root as i64, den: self.den })
        } else {
            proof {
                assert forall|q: int| 0 <= q implies #[trigger] (q * q) != p by {
                    if q <= root {
                        assert(q * q <= root * root) by (nonlinear_arith)
                            requires
                                0 <= q <= root,
                        ;
                    } else {
                        assert(q * q >= (root + 1) * (root + 1)) by (nonlinear_arith)
                            requires
                                q >= root + 1,
                                root >= 0,
                        ;
                    }
                }
            }
            None
        }
    }

    /// Exact quotient of two scalars. Fails with
    /// [`GeometryError::DivisionByZero`] exactly when the divisor is zero;
    /// any nonzero divisor succeeds.
    pub fn div(&self, other: &Self) -> (r: Result<Self, GeometryError>)
        requires
            !rat_is_zero(other@) ==> rat_div_in_range(self@, other@),
        ensures
            r is Err <==> rat_is_zero(other@),
            r is Err ==> r == Err::<Rational, GeometryError>(GeometryError::DivisionByZero),
            r matches Ok(q) ==> q@ == rat_div(self@, other@),
    {
        if other.is_zero() {
            Err(GeometryError::DivisionByZero)
        } else {
            Ok(self.mul(&other.recip()))
        }
    }
}

/// Whether `x` is the square of some nonnegative integer.
pub open spec fn is_square(x: int) -> bool {
    exists|r: int| 0 <= r && #[trigger] (r * r) == x
}

/// Floor of the square root of `x`: the unique `r` with
/// `r * r <= x < (r + 1) * (r + 1)`, found by binary search.
fn isqrt_u128(x: u128) -> (r: u128)
    ensures
        r * r <= x,
        x < (r + 1) * (r + 1),
{
    let mut lo: u128 = 0;
    let mut hi: u128 = 0x10000000000000000u128;
    proof {
        assert(x < hi * hi) by (nonlinear_arith)
            requires
                hi == 0x10000000000000000u128,
                x <= u128::MAX,
        ;
    }
    while lo + 1 < hi
        invariant
            lo < hi,
            hi <= 0x10000000000000000u128,
            lo * lo <= x,
            x < hi * hi,
        decreases hi - lo,
    {
        let mid: u128 = lo + (hi - lo) / 2;
        assert(lo < mid < hi);
        if mid <= x / mid {
            proof {
                vstd::arithmetic::div_mod::lemma_fundamental_div_mod(x as int, mid as int);
                assert(mid * mid <= x) by (nonlinear_arith)
                    requires
                        0 < mid,
                        mid <= x / mid,
                        x == mid * (x / mid) + x % mid,
                        x % mid >= 0,
                ;
            }
            lo = mid;
        } else {
            proof {
                vstd::arithmetic::div_mod::lemma_fundamental_div_mod(x as int, mid as int);
                assert(x < mid * mid) by (nonlinear_arith)
                    requires
                        0 < mid,
                        mid > x / mid,
                        x == mid * (x / mid) + x % mid,
                        x % mid < mid,
                ;
            }
            hi = mid;
        }
    }
    lo
}

/// The nonnegative integer square root of a perfect square `x`; an
/// arbitrary integer when `x` is not a perfect square.
pub open spec fn int_sqrt(x: int) -> int {
    choose|r: int| 0 <= r && #[trigger] (r * r) == x
}

/// `int_sqrt` is pinned down on perfect squares: any nonnegative `r` whose
/// square is `x` is the integer square root of `x`.
pub proof fn lemma_int_sqrt_unique(x: int, r: int)
    requires
        0 <= r,
        r * r == x,
    ensures
        int_sqrt(x) == r,
{
    assert(0 <= int_sqrt(x) && int_sqrt(x) * int_sqrt(x) == x);
    assert(int_sqrt(x) == r) by (nonlinear_arith)
        requires
            0 <= int_sqrt(x),
            0 <= r,
            int_sqrt(x) * int_sqrt(x) == r * r,
    ;
}

/// The exact square root of a fraction `q` whose root is rational: since
/// `q.n / q.d == (q.n * q.d) / (q.d * q.d)`, the root is
/// `int_sqrt(q.n * q.d) / q.d`.
pub open spec fn rat_len(q: Rat) -> Rat {
    Rat { n: int_sqrt(q.n * q.d), d: q.d }
}

/// The character for the decimal digit `d`.
pub open spec fn digit_char(d: int) -> char {
    if d == 0 {
        '0'
    } else if d == 1 {
        '1'
    } else if d == 2 {
        '2'
    } else if d == 3 {
        '3'
    } else if d == 4 {
        '4'
    } else if d == 5 {
        '5'
    } else if d == 6 {
        '6'
    } else if d == 7 {
        '7'
    } else if d == 8 {
        '8'
    } else {
        '9'
    }
}

/// The decimal digits of `n`, most significant first, with no leading zeros
/// except for `n == 0` itself.
pub open spec fn dec_digits(n: nat) -> Seq<char>
    decreases n,
{
    if n < 10 {
        seq![digit_char(n as int)]
    } else {
        dec_digits(n / 10) + seq![digit_char((n % 10) as int)]
    }
}

/// The magnitude of `a` in hundredths, rounded to the nearest integer with
/// ties away from zero.
pub open spec fn abs_hundredths(a: Rat) -> int {
    (200 * vstd::math::abs(a.n) + a.d) / (2 * a.d)
}

/// The two-decimal rendering of `a`: its rounded value with exactly two
/// digits after the point, and a leading minus sign only when the rounded
/// value is strictly negative.
pub open spec fn rat_display(a: Rat) -> Seq<char> {
    let h = abs_hundredths(a);
    let sign: Seq<char> = if a.n < 0 && h != 0 {
        seq!['-']
    } else {
        Seq::<char>::empty()
    };
    sign + dec_digits((h / 100) as nat) + seq!['.'] + seq![
        digit_char(h % 100 / 10),
        digit_char(h % 100 % 10),
    ]
}

/// The one-character string for the decimal digit `d`.
fn digit_str(d: u128) -> (r: &'static str)
    requires
        d < 10,
    ensures
        r@ == seq![digit_char(d as int)],
{
    if d == 0 {
        proof {
            reveal_strlit("0");
            assert("0"@ =~= seq![digit_char(0)]);
        }
        "0"
    } else if d == 1 {
        proof {
            reveal_strlit("1");
            assert("1"@ =~= seq![digit_char(1)]);
        }
        "1"
    } else if d == 2 {
        proof {
            reveal_strlit("2");
            assert("2"@ =~= seq![digit_char(2)]);
        }
        "2"
    } else if d == 3 {
        proof {
            reveal_strlit("3");
            assert("3"@ =~= seq![digit_char(3)]);
        }
        "3"
    } else if d == 4 {
        proof {
            reveal_strlit("4");
            assert("4"@ =~= seq![digit_char(4)]);
        }
        "4"
    } else if d == 5 {
        proof {
            reveal_strlit("5");
            assert("5"@ =~= seq![digit_char(5)]);
        }
        "5"
    } else if d == 6 {
        proof {
            reveal_strlit("6");
            assert("6"@ =~= seq![digit_char(6)]);
        }
        "6"
    } else if d == 7 {
        proof {
            reveal_strlit("7");
            assert("7"@ =~= seq![digit_char(7)]);
        }
        "7"
    } else if d == 8 {
        proof {
            reveal_strlit("8");
            assert("8"@ =~= seq![digit_char(8)]);
        }
        "8"
    } else {
        proof {
            reveal_strlit("9");
            assert("9"@ =~= seq![digit_char(9)]);
        }
        "9"
    }
}

/// Appends the decimal digits of `n` to `s`.
fn push_dec_digits(s: &mut String, n: u128)
    ensures
        final(s)@ == old(s)@ + dec_digits(n as nat),
    decreases n,
{
    if n < 10 {
        s.append(digit_str(n));
    } else {
        push_dec_digits(s, n / 10);
        s.append(digit_str(n % 10));
        assert(s@ =~= old(s)@ + dec_digits(n as nat));
    }
}

/// The product of two positive integers is positive.
pub proof fn lemma_pos_mul(a: int, b: int)
    requires
        0 < a,
        0 < b,
    ensures
        0 < a * b,
{
    assert(0 < a * b) by (nonlinear_arith)
        requires
            0 < a,
            0 < b,
    ;
}

impl PartialEq for Rational {
    fn eq(&self, other: &Self) -> (r: bool) {
        proof {
            use_type_invariant(self);
            use_type_invariant(other);
            lemma_prod_range(self.num as int, other.den as int, 0x8000_0000_0000_0000);
            lemma_prod_range(other.num as int, self.den as int, 0x8000_0000_0000_0000);
        }
        (self.num as i128) * (other.den as i128) == (other.num as i128) * (self.den as i128)
    }
}

impl vstd::std_specs::cmp::PartialEqSpecImpl for Rational {
    open spec fn obeys_eq_spec() -> bool {
        true
    }

    open spec fn eq_spec(&self, other: &Self) -> bool {
        rat_eq(self@, other@)
    }
}

} // verus!
