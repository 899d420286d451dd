//! Matrix routines, rotations and constants, in double precision.

use thor_rs_assist::constants::{Constants, Decimal};
use thor_rs_assist::definiteness::{axis6, find_falling_direction};
use thor_rs_assist::linalg::{
    dot6, mat6_mul, mat6_transpose, mat6_vec_mul, propagate_covariance_6x6, vec6_norm,
};
use thor_rs_assist::propagator::covariance_quality_6x6;
use thor_rs_assist::rotation::{ecl_to_eq_6x6, ecliptic_to_equatorial, equatorial_to_ecliptic};
use thor_rs_assist::scalar::{abs, max};
use thor_rs_assist::spectrum::{
    bracket_lowest, form_at, mat6_eigenvector_max, mat6_min_eigenvalue_sym, round_off_tolerance,
};
use thor_rs_assist::text::{text_eq, usize_text};
use thor_rs_assist::types::CovarianceQuality;

fn read(d: Decimal) -> f64 {
    format!("{}e{}", d.mantissa, d.exponent).parse().unwrap()
}

fn constants() -> Constants<f64> {
    Constants::new(read)
}

fn sqrt(x: f64) -> f64 {
    x.sqrt()
}

fn diagonal(d: [f64; 6]) -> [[f64; 6]; 6] {
    let mut m = [[0.0; 6]; 6];
    for i in 0..6 {
        m[i][i] = d[i];
    }
    m
}

/// A matrix with no symmetry and entries of many sizes.
fn uneven(seed: f64) -> [[f64; 6]; 6] {
    let mut m = [[0.0; 6]; 6];
    for i in 0..6 {
        for j in 0..6 {
            m[i][j] = (seed + 1.7 * i as f64 - 0.9 * j as f64).sin() * (j as f64 - 2.5).exp();
        }
    }
    m
}

#[test]
fn constants_are_the_nearest_doubles() {
    let c = constants();
    assert_eq!(c.zero, 0.0);
    assert_eq!(c.one, 1.0);
    assert_eq!(c.six, 6.0);
    assert_eq!(c.cos_eps, 0.917_482_062_070_108_2);
    assert_eq!(c.sin_eps, 0.397_777_155_929_776_9);
    assert_eq!(c.rad_to_deg, 180.0 / std::f64::consts::PI);
    assert_eq!(c.norm_floor, 1e-30);
    assert_eq!(c.eigen_tolerance, 1e-12);
    assert_eq!(c.round_off, 1e-12);
    assert_eq!(c.min_positive, f64::MIN_POSITIVE);
    assert_eq!(c.min_step, 1e-6);
    assert_eq!(c.precision, 1e-9);
}

#[test]
fn scalar_helpers() {
    assert_eq!(abs(0.0, -2.5), 2.5);
    assert_eq!(abs(0.0, 2.5), 2.5);
    assert_eq!(max(1.0, 2.0), 2.0);
    assert_eq!(max(2.0, 1.0), 2.0);
    assert_eq!(max(2.0, f64::NAN), 2.0);
}

#[test]
fn product_is_that_of_the_tensor_crate() {
    let (a, b) = (uneven(0.3), uneven(-1.1));
    assert_eq!(mat6_mul(0.0, &a, &b), hyperjet::linalg::mat6::mat6_mul(&a, &b));
}

#[test]
fn product_of_known_matrices() {
    let mut a = diagonal([1.0, 2.0, 3.0, 4.0, 5.0, 6.0]);
    a[0][5] = 7.0;
    let mut b = diagonal([1.0; 6]);
    b[5][0] = 2.0;
    let c = mat6_mul(0.0, &a, &b);
    assert_eq!(c[0], [15.0, 0.0, 0.0, 0.0, 0.0, 7.0]);
    assert_eq!(c[5], [12.0, 0.0, 0.0, 0.0, 0.0, 6.0]);
    assert_eq!(c[2], [0.0, 0.0, 3.0, 0.0, 0.0, 0.0]);
}

#[test]
fn transpose_is_that_of_the_tensor_crate() {
    let a = uneven(0.7);
    let t = mat6_transpose(0.0, &a);
    assert_eq!(t, hyperjet::linalg::mat6::mat6_transpose(&a));
    assert_eq!(t[1][4], a[4][1]);
    assert_eq!(mat6_transpose(0.0, &t), a);
}

#[test]
fn vector_routines() {
    let v = [3.0, 0.0, 4.0, 0.0, 0.0, 12.0];
    assert_eq!(vec6_norm(0.0, &sqrt, &v), 13.0);
    assert_eq!(dot6(1.0, &v, &[1.0, 5.0, 2.0, 5.0, 5.0, 0.5]), 18.0);
    let m = diagonal([2.0, 1.0, 0.5, 1.0, 1.0, -1.0]);
    assert_eq!(mat6_vec_mul(0.0, &m, &v), [6.0, 0.0, 2.0, 0.0, 0.0, -12.0]);
}

#[test]
fn covariance_through_a_known_map() {
    let mut j = diagonal([2.0, 1.0, 1.0, 1.0, 1.0, 1.0]);
    j[0][1] = 1.0;
    let sigma = diagonal([3.0, 5.0, 1.0, 1.0, 1.0, 1.0]);
    let p = propagate_covariance_6x6(0.0, &j, &sigma);
    assert_eq!(p[0][0], 17.0);
    assert_eq!(p[0][1], 5.0);
    assert_eq!(p[1][0], 5.0);
    assert_eq!(p[1][1], 5.0);
    assert_eq!(p[5][5], 1.0);
}

#[test]
fn covariance_maps_compose_to_round_off() {
    let (a, b) = (uneven(0.2), uneven(1.9));
    let sigma = diagonal([1.0, 2.0, 0.5, 1.5, 3.0, 0.25]);
    let once = propagate_covariance_6x6(0.0, &mat6_mul(0.0, &a, &b), &sigma);
    let twice = propagate_covariance_6x6(0.0, &a, &propagate_covariance_6x6(0.0, &b, &sigma));
    for i in 0..6 {
        for k in 0..6 {
            assert!((once[i][k] - twice[i][k]).abs() <= 1e-9 * (1.0 + once[i][k].abs()));
            assert!((once[i][k] - once[k][i]).abs() <= 1e-9 * (1.0 + once[i][k].abs()));
        }
    }
}

#[test]
fn rotations_are_those_of_the_engine() {
    let c = constants();
    for v in [
        [2.3, 1.0, 0.1, -0.005, 0.009, 0.0001],
        [-1.0, 1e-9, 40.0, 0.3, -7.0, 2.5],
        [0.0, 1.0, 0.0, 0.0, 0.0, 1.0],
    ] {
        assert_eq!(ecliptic_to_equatorial(&c, &v), assist_rs::ecliptic_to_equatorial(&v));
        assert_eq!(equatorial_to_ecliptic(&c, &v), assist_rs::equatorial_to_ecliptic(&v));
    }
}

#[test]
fn rotation_of_the_ecliptic_pole() {
    let c = constants();
    let v = ecliptic_to_equatorial(&c, &[5.0, 0.0, 1.0, 6.0, 1.0, 0.0]);
    assert_eq!(v, [5.0, -c.sin_eps, c.cos_eps, 6.0, c.cos_eps, c.sin_eps]);
}

#[test]
fn rotation_matrix_is_the_vector_form() {
    let c = constants();
    let m = ecl_to_eq_6x6(&c);
    assert_eq!(m[0], [1.0, 0.0, 0.0, 0.0, 0.0, 0.0]);
    assert_eq!(m[1], [0.0, c.cos_eps, -c.sin_eps, 0.0, 0.0, 0.0]);
    assert_eq!(m[2], [0.0, c.sin_eps, c.cos_eps, 0.0, 0.0, 0.0]);
    assert_eq!(m[3], [0.0, 0.0, 0.0, 1.0, 0.0, 0.0]);
    assert_eq!(m[4], [0.0, 0.0, 0.0, 0.0, c.cos_eps, -c.sin_eps]);
    assert_eq!(m[5], [0.0, 0.0, 0.0, 0.0, c.sin_eps, c.cos_eps]);
    let v = [2.3, 1.0, 0.1, -0.005, 0.009, 0.0001];
    assert_eq!(mat6_vec_mul(0.0, &m, &v), ecliptic_to_equatorial(&c, &v));
}

#[test]
fn rotation_matrix_is_orthonormal_to_round_off() {
    let c = constants();
    let m = ecl_to_eq_6x6(&c);
    let p = mat6_mul(0.0, &mat6_transpose(0.0, &m), &m);
    for i in 0..6 {
        for j in 0..6 {
            let want = if i == j { 1.0 } else { 0.0 };
            assert!((p[i][j] - want).abs() < 1e-15);
        }
    }
}

#[test]
fn dominant_eigenpair_of_a_diagonal() {
    let c = constants();
    let a = diagonal([1.0, 2.0, 3.0, 4.0, 5.0, 9.0]);
    let (v, l) = mat6_eigenvector_max(&c, &sqrt, &a, 200, 1e-12);
    assert!((l - 9.0).abs() < 1e-12);
    assert!((v[5].abs() - 1.0).abs() < 1e-12);
    assert!((vec6_norm(0.0, &sqrt, &v) - 1.0).abs() < 1e-12);
}

#[test]
fn dominant_eigenvalue_keeps_its_sign() {
    let c = constants();
    let a = diagonal([-8.0, 1.0, 1.0, 1.0, 1.0, 2.0]);
    let (v, l) = mat6_eigenvector_max(&c, &sqrt, &a, 200, 1e-12);
    assert!((l + 8.0).abs() < 1e-12);
    assert!((v[0].abs() - 1.0).abs() < 1e-12);
}

#[test]
fn no_iteration_gives_the_rayleigh_quotient_of_the_start() {
    let c = constants();
    let a = diagonal([1.0, 2.0, 3.0, 4.0, 5.0, 9.0]);
    let (v, l) = mat6_eigenvector_max(&c, &sqrt, &a, 0, 1e-12);
    assert_eq!(v, [1.0 / 6.0_f64.sqrt(); 6]);
    assert!((l - 4.0).abs() < 1e-14);
}

#[test]
fn vanishing_image_gives_zero() {
    let c = constants();
    let (v, l) = mat6_eigenvector_max(&c, &sqrt, &[[0.0; 6]; 6], 200, 1e-12);
    assert_eq!(v, [1.0 / 6.0_f64.sqrt(); 6]);
    assert_eq!(l, 0.0);
}

#[test]
fn least_eigenvalues() {
    let c = constants();
    let low = mat6_min_eigenvalue_sym(&c, &sqrt, &diagonal([2.0, 5.0, 6.0, 7.0, 8.0, 9.0]));
    assert!((low - 2.0).abs() < 1e-9);
    let negative = mat6_min_eigenvalue_sym(&c, &sqrt, &diagonal([1.0, 1.0, 1.0, 1.0, 1.0, -3.0]));
    assert!((negative + 3.0).abs() < 1e-9);
    let mut coupled = diagonal([0.0, 3.0, 1.0, 1.0, 1.0, 1.0]);
    coupled[0][1] = 2.0;
    coupled[1][0] = 2.0;
    assert!((mat6_min_eigenvalue_sym(&c, &sqrt, &coupled) + 1.0).abs() < 1e-9);
}

#[test]
fn frobenius_norm_bounds_the_spectrum() {
    let u = uneven(0.4);
    let mut a = [[0.0; 6]; 6];
    for i in 0..6 {
        for j in 0..6 {
            a[i][j] = u[i][j] + u[j][i];
        }
    }
    let f = a.iter().flatten().map(|x| x * x).sum::<f64>().sqrt();
    for v in uneven(2.2) {
        let form = form_at(0.0, &a, &v);
        assert!(f * dot6(0.0, &v, &v) - form >= 0.0);
    }
    let low = mat6_min_eigenvalue_sym(&constants(), &sqrt, &a);
    assert!(-f <= low && low <= f);
}

#[test]
fn zero_matrix_has_least_eigenvalue_zero() {
    assert_eq!(mat6_min_eigenvalue_sym(&constants(), &sqrt, &[[0.0; 6]; 6]), 0.0);
}

#[test]
fn quality_of_definite_covariances() {
    let c = constants();
    for d in [[1.0; 6], [1e-12, 1.0, 2.0, 3.0, 4.0, 5.0], [0.0; 6]] {
        assert_eq!(
            covariance_quality_6x6(&c, &sqrt, &diagonal(d)),
            CovarianceQuality::PositiveDefinite
        );
    }
}

#[test]
fn quality_of_indefinite_covariances() {
    let c = constants();
    match covariance_quality_6x6(&c, &sqrt, &diagonal([1.0, 1.0, 1.0, 1.0, 1.0, -3.0])) {
        CovarianceQuality::Indefinite { min_eig } => assert!((min_eig + 3.0).abs() < 1e-9),
        CovarianceQuality::PositiveDefinite => panic!("the covariance is indefinite"),
    }
    match covariance_quality_6x6(&c, &sqrt, &diagonal([-1e-10; 6])) {
        CovarianceQuality::Indefinite { min_eig } => assert!(min_eig < 0.0),
        CovarianceQuality::PositiveDefinite => panic!("no variance is positive"),
    }
}

#[test]
fn images_below_the_floor_count_as_zero() {
    let (v, l) = mat6_eigenvector_max(&constants(), &sqrt, &diagonal([-1e-40; 6]), 200, 1e-12);
    assert_eq!(v, [1.0 / 6.0_f64.sqrt(); 6]);
    assert_eq!(l, 0.0);
}

#[test]
fn eigenvector_orthogonal_to_the_start_is_found() {
    let mut a = [[0.0; 6]; 6];
    a[0][0] = 1.0;
    a[1][1] = 1.0;
    a[0][1] = -1.0;
    a[1][0] = -1.0;
    let (v, l) = mat6_eigenvector_max(&constants(), &sqrt, &a, 200, 1e-12);
    assert!((l - 2.0).abs() < 1e-9);
    let sign = v[0].signum();
    let half = 0.5_f64.sqrt();
    let want = [half, -half, 0.0, 0.0, 0.0, 0.0];
    for i in 0..6 {
        assert!((sign * v[i] - want[i]).abs() < 1e-9);
    }
}

#[test]
fn eigenvalues_of_equal_magnitude_are_told_apart() {
    // The eigenvalues are the root of five, its negative, and zeros.
    let mut a = [[0.0; 6]; 6];
    a[0][0] = 1.0;
    a[1][1] = -1.0;
    a[0][1] = 2.0;
    a[1][0] = 2.0;
    let (v, l) = mat6_eigenvector_max(&constants(), &sqrt, &a, 200, 1e-12);
    assert!((l.abs() - 5.0_f64.sqrt()).abs() < 1e-9);
    let w = mat6_vec_mul(0.0, &a, &v);
    for i in 0..6 {
        assert!((w[i] - l * v[i]).abs() < 1e-7);
    }
}

#[test]
fn slow_iteration_is_made_good() {
    let a = diagonal([1.0, 0.9999, 0.9998, 0.9997, 0.9996, 0.9995]);
    let (_, l) = mat6_eigenvector_max(&constants(), &sqrt, &a, 3, 1e-12);
    assert!((l - 1.0).abs() < 1e-12);
}

#[test]
fn least_eigenvalue_orthogonal_to_the_start_is_found() {
    let c = constants();
    let mut a = diagonal([1.0; 6]);
    a[0][1] = 2.0;
    a[1][0] = 2.0;
    assert!((mat6_min_eigenvalue_sym(&c, &sqrt, &a) + 1.0).abs() < 1e-9);
    match covariance_quality_6x6(&c, &sqrt, &a) {
        CovarianceQuality::Indefinite { min_eig } => assert!((min_eig + 1.0).abs() < 1e-9),
        CovarianceQuality::PositiveDefinite => panic!("the covariance is indefinite"),
    }
}

#[test]
fn least_eigenvalue_of_equal_entries() {
    let c = constants();
    let a = [[1.0; 6]; 6];
    assert!(mat6_min_eigenvalue_sym(&c, &sqrt, &a).abs() < 1e-12);
    assert_eq!(covariance_quality_6x6(&c, &sqrt, &a), CovarianceQuality::PositiveDefinite);
}

#[test]
fn least_eigenvalue_scales_and_ignores_order() {
    let c = constants();
    let u = uneven(0.4);
    let p = [3, 0, 5, 1, 4, 2];
    let mut a = [[0.0; 6]; 6];
    let mut b = [[0.0; 6]; 6];
    for i in 0..6 {
        for j in 0..6 {
            a[i][j] = u[i][j] + u[j][i];
        }
    }
    for i in 0..6 {
        for j in 0..6 {
            b[i][j] = 2.0 * a[p[i]][p[j]];
        }
    }
    let (m, n) =
        (mat6_min_eigenvalue_sym(&c, &sqrt, &a), mat6_min_eigenvalue_sym(&c, &sqrt, &b));
    assert!(m < 0.0);
    assert!((n - 2.0 * m).abs() < 1e-12 * m.abs());
}

#[test]
fn singular_covariances_pass() {
    // Rank one, with variances of very different size.
    let c = constants();
    let v = [1e-4, -3e-5, 2e-6, 7e-8, -1e-9, 4e-10];
    let mut a = [[0.0; 6]; 6];
    for i in 0..6 {
        for j in 0..6 {
            a[i][j] = v[i] * v[j];
        }
    }
    assert_eq!(covariance_quality_6x6(&c, &sqrt, &a), CovarianceQuality::PositiveDefinite);
    // Taken below zero by more than round-off, in the smallest variance.
    a[5][5] -= 1e-18;
    assert!(matches!(
        covariance_quality_6x6(&c, &sqrt, &a),
        CovarianceQuality::Indefinite { min_eig } if (min_eig + 1e-18).abs() < 1e-20
    ));
}

#[test]
fn quality_turns_at_the_tolerance() {
    let c = constants();
    let mut a = diagonal([1.0, 1.0, 1.0, 1.0, 1.0, -0.9e-12]);
    assert_eq!(round_off_tolerance(&c, &a), -1e-12);
    assert_eq!(covariance_quality_6x6(&c, &sqrt, &a), CovarianceQuality::PositiveDefinite);
    a[5][5] = -1.1e-12;
    assert!(matches!(
        covariance_quality_6x6(&c, &sqrt, &a),
        CovarianceQuality::Indefinite { .. }
    ));
}

#[test]
fn falling_directions() {
    let c = constants();
    assert_eq!(find_falling_direction(&c, &diagonal([1.0; 6]), 6), None);
    assert_eq!(find_falling_direction(&c, &[[0.0; 6]; 6], 6), None);
    assert_eq!(find_falling_direction(&c, &[[1.0; 6]; 6], 6), None);
    let a = diagonal([1.0, 1.0, 1.0, -1.0, 1.0, 0.0]);
    assert_eq!(find_falling_direction(&c, &a, 6), Some(axis6(&c, 3)));
    for coupling in [0.5, -0.5] {
        let mut a = [[0.0; 6]; 6];
        a[2][4] = coupling;
        a[4][2] = coupling;
        let x = find_falling_direction(&c, &a, 6).unwrap();
        assert_eq!(form_at(0.0, &a, &x), -1.0);
    }
    let mut a = diagonal([1.0; 6]);
    a[0][1] = 2.0;
    a[1][0] = 2.0;
    let x = find_falling_direction(&c, &a, 6).unwrap();
    assert_eq!(form_at(0.0, &a, &x), -3.0);
}

#[test]
fn bracket_closes_on_the_least_value() {
    let c = constants();
    let mut a = diagonal([1.0; 6]);
    a[0][1] = 2.0;
    a[1][0] = 2.0;
    let b = bracket_lowest(&c, &sqrt, &a, &axis6(&c, 5));
    assert!((b.value + 1.0).abs() < 1e-14);
    assert!((b.value - b.floor).abs() < 1e-14);
    assert!((form_at(0.0, &a, &b.vector) - b.value).abs() < 1e-15);
}

#[test]
fn numbers_in_decimal() {
    assert_eq!(usize_text(0), "0");
    assert_eq!(usize_text(9), "9");
    assert_eq!(usize_text(10), "10");
    assert_eq!(usize_text(1234567890), "1234567890");
    assert_eq!(usize_text(usize::MAX), usize::MAX.to_string());
}

#[test]
fn texts_compare_by_content() {
    assert!(text_eq("earth", &String::from("earth")));
    assert!(!text_eq("earth", "Earth"));
    assert!(!text_eq("earth", "eart"));
}

#[test]
fn decimals_read_back() {
    assert_eq!(read(Decimal::new(-25, -1)), -2.5);
    assert_eq!(read(Decimal::new(1, -9)), 1e-9);
}

#[test]
fn identity_keeps_a_covariance() {
    let sigma = uneven(0.8);
    assert_eq!(propagate_covariance_6x6(0.0, &diagonal([1.0; 6]), &sigma), sigma);
}

#[test]
fn dominant_pair_of_uneven_matrices() {
    let c = constants();
    for seed in [0.1, 0.7, 1.3, 2.9] {
        let u = uneven(seed);
        let mut a = [[0.0; 6]; 6];
        for i in 0..6 {
            for j in 0..6 {
                a[i][j] = u[i][j] + u[j][i];
            }
        }
        let (v, l) = mat6_eigenvector_max(&c, &sqrt, &a, 200, 1e-12);
        assert!((vec6_norm(0.0, &sqrt, &v) - 1.0).abs() < 1e-12);
        assert!((form_at(0.0, &a, &v) - l).abs() < 1e-12 * l.abs());
        let w = mat6_vec_mul(0.0, &a, &v);
        for i in 0..6 {
            assert!((w[i] - l * v[i]).abs() < 1e-6 * l.abs());
        }
        let low = mat6_min_eigenvalue_sym(&c, &sqrt, &a);
        assert!(low.abs() <= l.abs() * (1.0 + 1e-11));
    }
}

#[test]
fn negative_tolerance_counts_as_none() {
    let c = constants();
    let a = diagonal([-5.0, 4.0, 0.0, 0.0, 0.0, 0.0]);
    for tol in [-1.0, -1e-12, 0.0, 1e-12] {
        let (v, l) = mat6_eigenvector_max(&c, &sqrt, &a, 200, tol);
        assert!((l + 5.0).abs() < 1e-12);
        assert!((v[0].abs() - 1.0).abs() < 1e-12);
    }
}

#[test]
fn vector_is_an_eigenvector() {
    let c = constants();
    for seed in [0.2, 1.1, 2.4] {
        let u = uneven(seed);
        let mut a = [[0.0; 6]; 6];
        for i in 0..6 {
            for j in 0..6 {
                a[i][j] = u[i][j] + u[j][i];
            }
        }
        let (v, l) = mat6_eigenvector_max(&c, &sqrt, &a, 200, 1e-12);
        let mut r = mat6_vec_mul(0.0, &a, &v);
        for i in 0..6 {
            r[i] -= l * v[i];
        }
        assert!(vec6_norm(0.0, &sqrt, &r) < 1e-6 * l.abs());
    }
}
