use ledgers::binary64::Binary64;

fn num(x: f64) -> Binary64 {
    Binary64::from_bits(x.to_bits())
}

fn samples() -> Vec<f64> {
    vec![
        0.0,
        -0.0,
        1.0,
        -1.0,
        10.0,
        10.000000000000002,
        0.1 + 0.2,
        0.3,
        f64::MIN_POSITIVE,
        f64::MAX,
        f64::MIN,
        f64::EPSILON,
        f64::INFINITY,
        f64::NEG_INFINITY,
        f64::NAN,
        -f64::NAN,
        f64::from_bits(0x7ff0_0000_0000_0001),
        f64::from_bits(0xfff8_0000_0000_0000),
        f64::from_bits(1),
    ]
}

#[test]
fn equality_is_that_of_the_numbers() {
    for a in samples() {
        for b in samples() {
            assert_eq!(num(a).equals(&num(b)), a == b, "{a:?} and {b:?}");
        }
    }
}

#[test]
fn nan_and_zero_are_recognised() {
    for a in samples() {
        assert_eq!(num(a).nan(), a.is_nan(), "{a:?}");
        assert_eq!(num(a).zero(), a == 0.0, "{a:?}");
    }
}

#[test]
fn the_two_zeros_are_one_number_but_two_patterns() {
    assert!(num(0.0).equals(&num(-0.0)));
    assert_ne!(num(0.0), num(-0.0));
    assert_eq!(num(-0.0).to_bits(), 0x8000_0000_0000_0000);
}

#[test]
fn a_nan_is_not_even_itself() {
    let nan = num(f64::NAN);
    assert!(!nan.equals(&nan));
    assert_eq!(nan, nan);
}

#[test]
fn nearly_equal_prices_are_different_numbers() {
    assert!(!num(0.1 + 0.2).equals(&num(0.3)));
    assert!(!num(10.0).equals(&num(10.0 + f64::EPSILON * 8.0)));
}

#[test]
fn bits_go_in_and_out_unchanged() {
    for a in samples() {
        assert_eq!(num(a).to_bits(), a.to_bits());
        assert_eq!(Binary64 { bits: a.to_bits() }, num(a));
    }
}
