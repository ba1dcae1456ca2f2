use greeks_calculator::ad::Dual;
use greeks_calculator::binary64::Binary64;
use greeks_calculator::types::OptionType;

fn b(x: f64) -> Binary64 {
    Binary64::from_bits(x.to_bits())
}

fn dual(value: f64, deriv: f64) -> Dual {
    Dual::new(b(value), b(deriv))
}

#[test]
fn new_keeps_both_channels() {
    let d = dual(3.0, -2.0);
    assert_eq!(d.value(), b(3.0));
    assert_eq!(d.deriv(), b(-2.0));
    assert_eq!(d.value, b(3.0));
    assert_eq!(d.deriv, b(-2.0));
}

#[test]
fn constant_has_zero_derivative() {
    let c = Dual::constant(b(5.0));
    assert_eq!(c.value().to_bits(), 5.0f64.to_bits());
    assert_eq!(c.deriv().to_bits(), 0.0f64.to_bits());
}

#[test]
fn variable_has_unit_derivative() {
    let x = Dual::variable(b(5.0));
    assert_eq!(x.value().to_bits(), 5.0f64.to_bits());
    assert_eq!(x.deriv().to_bits(), 1.0f64.to_bits());
}

#[test]
fn neg_flips_both_channels() {
    assert_eq!(-dual(3.0, -2.0), dual(-3.0, 2.0));
    assert_eq!(-dual(0.0, 1.0), dual(-0.0, -1.0));
    assert_eq!(-(-dual(0.5, 1.5)), dual(0.5, 1.5));
}

#[test]
fn abs_keeps_or_negates() {
    assert_eq!(dual(3.0, -2.0).abs(), dual(3.0, -2.0));
    assert_eq!(dual(-3.0, -2.0).abs(), dual(3.0, 2.0));
    assert_eq!(dual(-3.0, 2.0).abs(), dual(3.0, -2.0));
}

#[test]
fn abs_at_zero_keeps_the_number() {
    assert_eq!(dual(0.0, 1.0).abs(), dual(0.0, 1.0));
    assert_eq!(dual(-0.0, 1.0).abs(), dual(-0.0, 1.0));
}

#[test]
fn abs_of_nan_value_negates() {
    let d = dual(f64::NAN, 1.0).abs();
    assert_eq!(d.deriv(), b(-1.0));
    assert!(d.value().is_nan());
}

#[test]
fn max_and_min_select_by_value() {
    let x = dual(3.0, 1.0);
    let y = dual(2.0, 7.0);
    assert_eq!(x.max(y), x);
    assert_eq!(y.max(x), x);
    assert_eq!(x.min(y), y);
    assert_eq!(y.min(x), y);
}

#[test]
fn max_and_min_resolve_ties_to_the_receiver() {
    let x = dual(2.0, 1.0);
    let y = dual(2.0, 7.0);
    assert_eq!(x.max(y), x);
    assert_eq!(y.max(x), y);
    assert_eq!(x.min(y), x);
    assert_eq!(y.min(x), y);
}

#[test]
fn max_and_min_with_nan_take_the_argument() {
    let x = dual(f64::NAN, 1.0);
    let y = dual(2.0, 7.0);
    assert_eq!(x.max(y), y);
    assert_eq!(x.min(y), y);
    assert_eq!(y.max(x), x);
    assert_eq!(y.min(x), x);
}

#[test]
fn option_type_from_flag() {
    assert_eq!(OptionType::from_call_flag(true), OptionType::Call);
    assert_eq!(OptionType::from_call_flag(false), OptionType::Put);
    assert_ne!(OptionType::Call, OptionType::Put);
}
