//! The small functions that the rest is built on.

use vstd::prelude::*;

use crate::constants::Constants;
use crate::engine::AdaptiveMode;
use crate::exact::exact;
use crate::laws::forms::ordered;
use crate::loading::{step_label, LoadStep};
use crate::propagator::default_integrator;
use crate::requests::{
    covariance_request_outcome, frame_name, method_name, orbit_outcome, origin_name,
    profile_outcome,
};
use crate::scalar::{applied, is_function, larger, less, magnitude, Scalar};
use crate::text::{ascii_lower, ascii_lowercase, decimal_text};
use crate::types::{
    list_outcome, outcome, CovarianceMethod, EphemerisConfig, ErrorView, Frame, IntegratorProfile,
    Origin, PropagationProfile, PropagatorError, TestOrbit,
};

verus! {

/// The magnitude is the distance from zero.
pub proof fn magnitude_is_the_distance_from_zero<T: Scalar>(
    val: spec_fn(T) -> real,
    zero: T,
    x: T,
)
    requires
        exact(val),
        ordered(val),
        val(zero) == 0 as real,
    ensures
        val(magnitude(zero, x)) >= 0 as real,
        val(magnitude(zero, x)) == val(x) || val(magnitude(zero, x)) == -val(x),
{
}

/// The larger of two values is one of them, and neither exceeds it. Where they
/// do not compare it is the first; this needs no exact arithmetic.
pub proof fn larger_is_the_maximum<T: Scalar>(val: spec_fn(T) -> real, x: T, y: T)
    ensures
        larger(x, y) == x || larger(x, y) == y,
        !less(x, y) ==> larger(x, y) == x,
        ordered(val) ==> val(larger(x, y)) >= val(x) && val(larger(x, y)) >= val(y),
{
}

/// The value of a function at a point is what it returns there.
pub proof fn applied_is_what_is_returned<A, B, F: Fn(A) -> B>(f: F, x: A, y: B)
    requires
        is_function(f),
        f.ensures((x,), y),
    ensures
        applied(f, x) == y,
{
}

/// The number that a text of decimal digits stands for.
pub open spec fn read_decimal(s: Seq<char>) -> int
    decreases s.len(),
{
    if s.len() == 0 {
        0
    } else {
        10 * read_decimal(s.drop_last()) + (s.last() as int - '0' as int)
    }
}

/// A number in decimal notation reads back as the number. It has at least one
/// character, all of them are digits, and the first is zero only where it is
/// the only one.
pub proof fn decimal_notation_reads_back(n: nat)
    ensures
        read_decimal(decimal_text(n)) == n,
        decimal_text(n).len() > 0,
        forall|i: int|
            0 <= i < decimal_text(n).len() ==> '0' <= #[trigger] decimal_text(n)[i]
                && decimal_text(n)[i] <= '9',
        decimal_text(n)[0] == '0' ==> n == 0 && decimal_text(n).len() == 1,
    decreases n,
{
    let s = decimal_text(n);
    if n < 10 {
        assert(s.drop_last() =~= Seq::<char>::empty());
        assert(s.last() as int == '0' as int + n);
        reveal_with_fuel(read_decimal, 2);
    } else {
        decimal_notation_reads_back(n / 10);
        assert(s.drop_last() =~= decimal_text(n / 10));
        assert(s.last() as int == '0' as int + n % 10);
        assert(s[0] == decimal_text(n / 10)[0]);
        assert forall|i: int| 0 <= i < s.len() implies '0' <= #[trigger] s[i] && s[i] <= '9' by {
            if i < s.len() - 1 {
                assert(s[i] == decimal_text(n / 10)[i]);
            }
        }
    }
}

/// Case folding keeps the length, moves the letters `A` to `Z` to `a` to `z`,
/// in their order, and leaves every other character.
pub proof fn case_folding_moves_letters_alone(s: Seq<char>, i: int)
    requires
        0 <= i < s.len(),
    ensures
        ascii_lowercase(s).len() == s.len(),
        ascii_lowercase(s)[i] == ascii_lower(s[i]),
        'A' <= s[i] && s[i] <= 'Z' ==> ascii_lowercase(s)[i] as int - 'a' as int == s[i] as int
            - 'A' as int,
        !('A' <= s[i] && s[i] <= 'Z') ==> ascii_lowercase(s)[i] == s[i],
{
}

/// A result as a specification value keeps the value, and of an error its
/// variant and its text.
pub proof fn outcomes_keep_everything<V>(value: V, list: Vec<V>, text: String)
    ensures
        outcome(Ok::<V, PropagatorError>(value)) == Ok::<V, ErrorView>(value),
        list_outcome(Ok::<Vec<V>, PropagatorError>(list)) == Ok::<Seq<V>, ErrorView>(list@),
        forall|e: PropagatorError| #[trigger]
            outcome(Err::<V, PropagatorError>(e)) == Err::<V, ErrorView>(e@),
        forall|e: PropagatorError| #[trigger]
            list_outcome(Err::<Vec<V>, PropagatorError>(e)) == Err::<Seq<V>, ErrorView>(e@),
        PropagatorError::PropagationFailed(text)@ == ErrorView::PropagationFailed(text@),
        PropagatorError::InvalidOrbit(text)@ == ErrorView::InvalidOrbit(text@),
        PropagatorError::InvalidObserver(text)@ == ErrorView::InvalidObserver(text@),
        PropagatorError::Unsupported(text)@ == ErrorView::Unsupported(text@),
        PropagatorError::MissingCovariance(text)@ == ErrorView::MissingCovariance(text@),
        PropagatorError::Other(text)@ == ErrorView::Other(text@),
{
}

/// A profile is accepted unless it insists on the fast integrator. Events and
/// dense steps do not count.
pub proof fn accepted_profiles(profile: PropagationProfile)
    ensures
        profile_outcome(profile) is Ok <==> profile.integrator == IntegratorProfile::Accurate
            || profile.allow_accurate_substitute,
{
}

/// An orbit is accepted just when it is ecliptic and about the Sun, and the
/// engine is then handed its six components in their order and its epoch.
pub proof fn accepted_orbits<T>(orbit: TestOrbit<T>)
    ensures
        orbit_outcome(orbit) is Ok <==> orbit.state.frame == Frame::EclipticJ2000
            && orbit.state.origin == Origin::Sun,
        orbit_outcome(orbit) matches Ok(o) ==> {
            &&& o.state[0] == orbit.state.x
            &&& o.state[1] == orbit.state.y
            &&& o.state[2] == orbit.state.z
            &&& o.state[3] == orbit.state.vx
            &&& o.state[4] == orbit.state.vy
            &&& o.state[5] == orbit.state.vz
            &&& o.epoch == orbit.state.epoch
        },
{
}

/// A request that asks for no covariances is accepted, whatever else it says.
/// One that does is accepted just when the orbit carries a covariance and the
/// method is of first order. The number of samples does not count.
pub proof fn accepted_covariance_requests<T>(orbit: TestOrbit<T>, config: EphemerisConfig)
    ensures
        covariance_request_outcome(orbit, config) is Ok <==> (!config.compute_covariance || (
        orbit.state.covariance is Some && (config.covariance_method == CovarianceMethod::Auto
            || config.covariance_method == CovarianceMethod::Analytic))),
{
}

/// The names that messages use.
pub proof fn names_in_messages()
    ensures
        frame_name(Frame::EclipticJ2000) == "EclipticJ2000"@,
        frame_name(Frame::Equatorial) == "Equatorial"@,
        origin_name(Origin::SolarSystemBarycenter) == "SolarSystemBarycenter"@,
        origin_name(Origin::Sun) == "Sun"@,
        origin_name(Origin::Earth) == "Earth"@,
        method_name(CovarianceMethod::Auto) == "Auto"@,
        method_name(CovarianceMethod::Analytic) == "Analytic"@,
        method_name(CovarianceMethod::MonteCarlo) == "MonteCarlo"@,
        method_name(CovarianceMethod::SigmaPoint) == "SigmaPoint"@,
        step_label(LoadStep::DataFiles) == "DataManager: "@,
        step_label(LoadStep::Ephemeris) == "Failed to load ASSIST ephemeris: "@,
        step_label(LoadStep::ObservatoryCodes) == "Failed to load obs codes: "@,
        step_label(LoadStep::EarthOrientation) == "Failed to load EOP kernels: "@,
{
}

/// A new propagator starts with the least timestep and never goes below it; it
/// steps by the criterion of Pham, Rein and Spiegel, to the fixed precision.
pub proof fn settings_of_a_new_propagator<T>(c: Constants<T>)
    ensures
        default_integrator(c).initial_dt == Some(c.min_step),
        default_integrator(c).min_dt == Some(c.min_step),
        default_integrator(c).epsilon == Some(c.precision),
        default_integrator(c).adaptive_mode == Some(AdaptiveMode::Prs23),
{
}

} // verus!
