use greeks_calculator::binary64::Binary64;
use greeks_calculator::volatility::svi::check_butterfly_arbitrage;
use greeks_calculator::volatility::{SVIParams, Slice};

fn b(x: f64) -> Binary64 {
    Binary64::from_bits(x.to_bits())
}

fn f(x: Binary64) -> f64 {
    f64::from_bits(x.to_bits())
}

fn svi(a: f64, slope: f64, rho: f64, m: f64, sigma: f64) -> SVIParams {
    SVIParams::new(b(a), b(slope), b(rho), b(m), b(sigma))
}

fn implied_variance(p: &SVIParams, k: f64) -> f64 {
    let k_minus_m = k - f(p.m);
    let sqrt_term = (k_minus_m * k_minus_m + f(p.sigma) * f(p.sigma)).sqrt();
    f(p.a) + f(p.b) * (f(p.rho) * k_minus_m + sqrt_term)
}

fn min_variance(p: &SVIParams) -> Binary64 {
    b(f(p.a) + f(p.b) * f(p.sigma) * (1.0 - f(p.rho) * f(p.rho)).sqrt())
}

fn slice(p: SVIParams) -> Slice {
    Slice::new(p, min_variance(&p), b(implied_variance(&p, 0.0)))
}

#[test]
fn test_svi_basic() {
    let params = svi(0.04, 0.1, -0.4, 0.0, 0.2);

    let variance_atm = implied_variance(&params, 0.0);
    assert!(variance_atm > 0.0);

    assert!(params.is_arbitrage_free(min_variance(&params)));
    assert!(slice(params).is_arbitrage_free());
}

#[test]
fn test_arbitrage_constraints() {
    let bad_params1 = svi(0.04, -0.1, 0.0, 0.0, 0.2);
    assert!(!bad_params1.is_arbitrage_free(min_variance(&bad_params1)));

    let bad_params2 = svi(0.04, 0.1, 1.5, 0.0, 0.2);
    assert!(!bad_params2.is_arbitrage_free(min_variance(&bad_params2)));

    let bad_params3 = svi(0.04, 0.1, 0.0, 0.0, -0.2);
    assert!(!bad_params3.is_arbitrage_free(min_variance(&bad_params3)));
}

#[test]
fn new_keeps_the_five_parameters() {
    let p = svi(0.04, 0.1, -0.4, 0.01, 0.2);
    assert_eq!(p.a, b(0.04));
    assert_eq!(p.b, b(0.1));
    assert_eq!(p.rho, b(-0.4));
    assert_eq!(p.m, b(0.01));
    assert_eq!(p.sigma, b(0.2));
}

#[test]
fn rejections_hold_whatever_the_minimum_variance() {
    let fine = b(1.0);
    assert!(!svi(0.04, -0.1, 0.0, 0.0, 0.2).is_arbitrage_free(fine));
    assert!(!svi(0.04, 0.1, 1.0, 0.0, 0.2).is_arbitrage_free(fine));
    assert!(!svi(0.04, 0.1, -1.0, 0.0, 0.2).is_arbitrage_free(fine));
    assert!(!svi(0.04, 0.1, -1.5, 0.0, 0.2).is_arbitrage_free(fine));
    assert!(!svi(0.04, 0.1, 0.0, 0.0, 0.0).is_arbitrage_free(fine));
    assert!(!svi(0.04, 0.1, 0.0, 0.0, -0.0).is_arbitrage_free(fine));
    assert!(svi(0.04, 0.1, 0.0, 0.0, 0.2).is_arbitrage_free(fine));
}

#[test]
fn boundary_parameters_are_accepted() {
    let fine = b(0.0);
    assert!(svi(0.0, 0.0, 0.0, 0.0, 1e-300).is_arbitrage_free(fine));
    assert!(svi(0.0, -0.0, 0.999999, 5.0, 0.2).is_arbitrage_free(b(-0.0)));
    assert!(svi(0.0, 0.1, -0.999999, -5.0, 0.2).is_arbitrage_free(fine));
}

#[test]
fn negative_minimum_variance_is_rejected() {
    let p = svi(-0.5, 0.1, 0.0, 0.0, 0.2);
    assert!(f(min_variance(&p)) < 0.0);
    assert!(!p.is_arbitrage_free(min_variance(&p)));
    assert!(!slice(p).is_arbitrage_free());
    assert!(p.is_arbitrage_free(b(0.0)));
}

#[test]
fn nan_fails_the_slice_check() {
    let fine = b(1.0);
    assert!(!svi(0.04, f64::NAN, 0.0, 0.0, 0.2).is_arbitrage_free(fine));
    assert!(!svi(0.04, 0.1, f64::NAN, 0.0, 0.2).is_arbitrage_free(fine));
    assert!(!svi(0.04, 0.1, 0.0, 0.0, f64::NAN).is_arbitrage_free(fine));
    assert!(!svi(0.04, 0.1, 0.0, 0.0, 0.2).is_arbitrage_free(b(f64::NAN)));
}

#[test]
fn butterfly_check_bounds_slope_and_curvature() {
    assert!(check_butterfly_arbitrage(b(0.0), b(0.0)));
    assert!(check_butterfly_arbitrage(b(3.999), b(0.5)));
    assert!(check_butterfly_arbitrage(b(-3.999), b(0.5)));
    assert!(!check_butterfly_arbitrage(b(4.0), b(0.5)));
    assert!(!check_butterfly_arbitrage(b(-4.0), b(0.5)));
    assert!(!check_butterfly_arbitrage(b(0.1), b(-1e-12)));
    assert!(!check_butterfly_arbitrage(b(f64::NAN), b(0.5)));
    assert!(!check_butterfly_arbitrage(b(0.1), b(f64::NAN)));
}

#[test]
fn butterfly_check_on_a_slice() {
    let p = svi(0.04, 0.1, -0.4, 0.0, 0.2);
    let k = 0.1 - f(p.m);
    let sigma_sq = f(p.sigma) * f(p.sigma);
    let sqrt_term = (k * k + sigma_sq).sqrt();
    let dw_dk = f(p.b) * (f(p.rho) + k / sqrt_term);
    let d2w_dk2 = f(p.b) * sigma_sq / (sqrt_term * sqrt_term * sqrt_term);
    assert!(check_butterfly_arbitrage(b(dw_dk), b(d2w_dk2)));
}

#[test]
fn slice_keeps_its_fields() {
    let p = svi(0.04, 0.1, -0.4, 0.0, 0.2);
    let s = Slice::new(p, b(0.05), b(0.06));
    assert_eq!(s.params, p);
    assert_eq!(s.min_variance, b(0.05));
    assert_eq!(s.atm_variance, b(0.06));
}
