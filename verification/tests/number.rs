use tree_walk_rs::number::Number;

fn number(value: f64) -> Number {
    Number::from_bits(value.to_bits())
}

fn samples() -> Vec<f64> {
    vec![
        0.0,
        -0.0,
        1.0,
        -1.0,
        0.5,
        -0.5,
        2.0,
        1e308,
        -1e308,
        5e-324,
        -5e-324,
        1.5,
        3.0,
        f64::INFINITY,
        f64::NEG_INFINITY,
        f64::NAN,
        -f64::NAN,
        f64::MAX,
        f64::MIN,
        f64::MIN_POSITIVE,
        123456789.125,
    ]
}

#[test]
fn order_is_that_of_the_values() {
    for a in samples() {
        for b in samples() {
            assert_eq!(number(a).lt(number(b)), a < b, "{a} < {b}");
            assert_eq!(number(a).le(number(b)), a <= b, "{a} <= {b}");
        }
    }
}

#[test]
fn equality_is_that_of_the_values() {
    for a in samples() {
        for b in samples() {
            assert_eq!(number(a).equals(number(b)), a == b, "{a} == {b}");
        }
    }
    assert!(number(0.0).equals(number(-0.0)));
    assert!(!number(f64::NAN).equals(number(f64::NAN)));
}

#[test]
fn negation_flips_the_sign() {
    for a in samples() {
        assert_eq!(number(a).negate().bits, (-a).to_bits(), "-({a})");
        assert_eq!(number(a).negate().negate(), number(a));
    }
    assert_eq!(number(2.5).negate(), number(-2.5));
}

#[test]
fn what_is_not_a_number_is_told_apart() {
    for a in samples() {
        assert_eq!(number(a).is_nan(), a.is_nan(), "{a}");
        assert_eq!(number(a).negative(), a.is_sign_negative(), "{a}");
    }
    assert_eq!(number(1.0).magnitude(), 0x3FF0_0000_0000_0000);
    assert_eq!(number(-1.0).magnitude(), 0x3FF0_0000_0000_0000);
}
