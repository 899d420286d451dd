//! The numbers that the library's rules fix, in decimal notation, and the
//! same numbers as scalars.

use vstd::prelude::*;

verus! {

/// The number `mantissa * 10^exponent`.
///
/// Every finite double is the double nearest to one of these, so a decimal
/// carries a double without loss.
#[derive(Clone, Copy, Debug, PartialEq, Eq, Structural)]
pub struct Decimal {
    pub mantissa: i64,
    pub exponent: i32,
}

impl Decimal {
    /// `mantissa * 10^exponent`.
    pub fn new(mantissa: i64, exponent: i32) -> (d: Decimal)
        ensures
            d == (Decimal { mantissa, exponent }),
    {
        Decimal { mantissa, exponent }
    }
}

/// The constants of the library as values of the scalar type.
#[derive(Clone, Copy)]
pub struct Constants<T> {
    /// Zero.
    pub zero: T,
    /// One.
    pub one: T,
    /// Six, the dimension of a state.
    pub six: T,
    /// Cosine of the J2000 mean obliquity of the ecliptic.
    pub cos_eps: T,
    /// Sine of the J2000 mean obliquity of the ecliptic.
    pub sin_eps: T,
    /// Degrees in a radian.
    pub rad_to_deg: T,
    /// Norm below which a power iterate counts as the zero vector.
    pub norm_floor: T,
    /// Relative residual at which a power iteration has converged.
    pub eigen_tolerance: T,
    /// Relative size of a negative eigenvalue that is still round-off.
    pub round_off: T,
    /// The least positive normal double.
    pub min_positive: T,
    /// Timestep that the integrator starts with and never goes below, in days.
    pub min_step: T,
    /// Precision of the integrator.
    pub precision: T,
}

/// `value` is what `read` may return for `mantissa * 10^exponent`.
pub open spec fn stands_for<T, R: Fn(Decimal) -> T>(
    read: R,
    value: T,
    mantissa: int,
    exponent: int,
) -> bool {
    read.ensures((Decimal { mantissa: mantissa as i64, exponent: exponent as i32 },), value)
}

impl<T> Constants<T> {
    /// The constants, each converted from its decimal by `read`.
    pub fn new<R: Fn(Decimal) -> T>(read: R) -> (c: Constants<T>)
        requires
            forall|d: Decimal| #[trigger] read.requires((d,)),
        ensures
            stands_for(read, c.zero, 0, 0),
            stands_for(read, c.one, 1, 0),
            stands_for(read, c.six, 6, 0),
            stands_for(read, c.cos_eps, 9174820620701082, -16),
            stands_for(read, c.sin_eps, 3977771559297769, -16),
            stands_for(read, c.rad_to_deg, 5729577951308232, -14),
            stands_for(read, c.norm_floor, 1, -30),
            stands_for(read, c.eigen_tolerance, 1, -12),
            stands_for(read, c.round_off, 1, -12),
            stands_for(read, c.min_positive, 22250738585072014, -324),
            stands_for(read, c.min_step, 1, -6),
            stands_for(read, c.precision, 1, -9),
    {
        Constants {
            zero: read(Decimal::new(0, 0)),
            one: read(Decimal::new(1, 0)),
            six: read(Decimal::new(6, 0)),
            cos_eps: read(Decimal::new(9174820620701082, -16)),
            sin_eps: read(Decimal::new(3977771559297769, -16)),
            rad_to_deg: read(Decimal::new(5729577951308232, -14)),
            norm_floor: read(Decimal::new(1, -30)),
            eigen_tolerance: read(Decimal::new(1, -12)),
            round_off: read(Decimal::new(1, -12)),
            min_positive: read(Decimal::new(22250738585072014, -324)),
            min_step: read(Decimal::new(1, -6)),
            precision: read(Decimal::new(1, -9)),
        }
    }
}

} // verus!
