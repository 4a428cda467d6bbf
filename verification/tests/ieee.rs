use babamul_objects::ieee::{Float32, Float64};
use babamul_objects::sky::{check_dec, check_ra, check_radius};

fn double(x: f64) -> Float64 {
    Float64::from_bits(x.to_bits())
}

#[test]
fn doubles_compare_as_the_machine_compares_them() {
    let values = [
        0.0,
        -0.0,
        f64::MIN_POSITIVE,
        -f64::MIN_POSITIVE,
        5e-324,
        -5e-324,
        1.0,
        -1.0,
        359.999,
        360.0,
        f64::MAX,
        f64::MIN,
        f64::INFINITY,
        f64::NEG_INFINITY,
        f64::NAN,
        -f64::NAN,
    ];
    for a in values {
        for b in values {
            assert_eq!(double(a).less_than(double(b)), a < b, "{} < {}", a, b);
            assert_eq!(double(a).at_most(double(b)), a <= b, "{} <= {}", a, b);
        }
        assert_eq!(double(a).abs(), double(a.abs()));
    }
}

#[test]
fn bits_are_carried_through() {
    assert_eq!(Float32::from_bits(19.4f32.to_bits()).bits, 19.4f32.to_bits());
    assert_eq!(double(-2.5).bits, (-2.5f64).to_bits());
}

#[test]
fn right_ascensions_are_in_a_circle() {
    assert!(check_ra(double(0.0)) && check_ra(double(-0.0)) && check_ra(double(359.999999)));
    assert!(!check_ra(double(360.0)) && !check_ra(double(-1e-9)));
    assert!(!check_ra(double(f64::INFINITY)));
    assert!(!check_ra(double(f64::NAN)));
}

#[test]
fn declinations_reach_the_poles() {
    assert!(check_dec(double(90.0)) && check_dec(double(-90.0)) && check_dec(double(0.0)));
    assert!(!check_dec(double(90.000001)) && !check_dec(double(-90.000001)));
    assert!(!check_dec(double(f64::NAN)));
    assert!(!check_dec(double(f64::NEG_INFINITY)));
}

#[test]
fn radii_are_positive_and_at_most_ten_arcminutes() {
    assert!(check_radius(double(600.0)) && check_radius(double(1e-300)));
    assert!(!check_radius(double(0.0)) && !check_radius(double(-0.0)));
    assert!(!check_radius(double(600.0000001)) && !check_radius(double(-3.0)));
    assert!(!check_radius(double(f64::NAN)) && !check_radius(double(-f64::NAN)));
}
