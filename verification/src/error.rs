use vstd::prelude::*;

verus! {

/// The closed set of failures this library can report.
///
/// Every fallible operation returns one of these kinds; none of them is
/// fatal, and no operation panics.
#[derive(Clone, Copy, Debug, PartialEq, Eq, Structural)]
pub enum GeometryError {
    /// A scalar division was attempted with a divisor exactly equal to zero.
    DivisionByZero,
    /// Normalization was attempted on a vector whose length is exactly zero,
    /// so no direction is defined.
    ZeroNormVector,
    /// A surface normal was requested for a triangle with collinear or
    /// coincident vertices (zero area), so no orientation is defined.
    DegenerateGeometry,
}

} // verus!
