//! The value domain: coercions, arithmetic, comparisons and equality, held
//! against the host's own IEEE doubles.

use rust_tree_walk::error::ErrorKind;
use rust_tree_walk::number;
use rust_tree_walk::value::Value;

fn num(x: f64) -> Value {
    Value::Number(x.to_bits())
}

fn text(s: &str) -> Value {
    Value::Str(s.to_string())
}

fn as_f64(v: &Value) -> f64 {
    match v {
        Value::Number(bits) => f64::from_bits(*bits),
        _ => panic!("expected a number"),
    }
}

fn is_runtime(e: &rust_tree_walk::error::Error) -> bool {
    matches!(e.kind, ErrorKind::RuntimeError { .. })
}

#[test]
fn add_concatenates_when_left_is_text() {
    let r = text("3").add(&num(1.0)).unwrap();
    match r {
        Value::Str(s) => assert_eq!(s, "31"),
        _ => panic!("expected text"),
    }
}

#[test]
fn add_coerces_text_on_the_right_of_a_number() {
    let r = num(1.0).add(&text("3")).unwrap();
    assert_eq!(as_f64(&r), 4.0);
}

#[test]
fn add_fails_on_nonnumeric_text_on_the_right() {
    let e = num(1.0).add(&text("abc")).unwrap_err();
    assert!(is_runtime(&e));
}

#[test]
fn as_number_coercions() {
    assert_eq!(as_f64(&Value::True.as_number().unwrap()), 1.0);
    assert_eq!(as_f64(&Value::False.as_number().unwrap()), 0.0);
    assert_eq!(as_f64(&Value::Null.as_number().unwrap()), 0.0);
    assert_eq!(as_f64(&text("2.5").as_number().unwrap()), 2.5);
    assert!(text("abc").as_number().is_err());
}

#[test]
fn truthiness() {
    assert!(num(1.0).truthy());
    assert!(num(f64::NAN).truthy());
    assert!(!num(0.0).truthy());
    assert!(!num(-0.0).truthy());
    assert!(!Value::Null.truthy());
    assert!(!text("").truthy());
    assert!(text("x").truthy());
}

#[test]
fn comparisons_match_the_host_doubles() {
    let samples: [f64; 9] =
        [f64::NAN, f64::INFINITY, f64::NEG_INFINITY, -0.0, 0.0, 1.5, -3.25, 1e300, 5e-324];
    for &a in samples.iter() {
        for &b in samples.iter() {
            assert_eq!(num(a).less(&num(b)).unwrap().is_true(), a < b, "{a} < {b}");
            assert_eq!(num(a).less_equal(&num(b)).unwrap().is_true(), a <= b, "{a} <= {b}");
            assert_eq!(num(a).greater(&num(b)).unwrap().is_true(), a > b, "{a} > {b}");
            assert_eq!(num(a).greater_equal(&num(b)).unwrap().is_true(), a >= b, "{a} >= {b}");
            assert_eq!(num(a).equal(&num(b)).unwrap().is_true(), a == b, "{a} == {b}");
        }
    }
}

#[test]
fn arithmetic_matches_the_host_doubles() {
    let samples: [f64; 6] = [0.0, 1.0, -2.5, 0.1, 1e300, -0.0];
    for &a in samples.iter() {
        for &b in samples.iter() {
            assert_eq!(as_f64(&num(a).add(&num(b)).unwrap()).to_bits(), (a + b).to_bits());
            assert_eq!(as_f64(&num(a).subtract(&num(b)).unwrap()).to_bits(), (a - b).to_bits());
            assert_eq!(as_f64(&num(a).mutiply(&num(b)).unwrap()).to_bits(), (a * b).to_bits());
            if b != 0.0 {
                assert_eq!(as_f64(&num(a).division(&num(b)).unwrap()).to_bits(), (a / b).to_bits());
            }
        }
    }
}

#[test]
fn division_by_zero_follows_ieee() {
    let r = as_f64(&num(1.0).division(&num(0.0)).unwrap());
    assert!(r.is_infinite() && r > 0.0);
    let r = as_f64(&num(0.0).division(&num(0.0)).unwrap());
    assert!(r.is_nan());
}

#[test]
fn not_equal_is_the_negation_of_equal() {
    assert!(num(1.0).not_equal(&num(2.0)).unwrap().is_true());
    assert!(num(1.0).not_equal(&num(1.0)).unwrap().is_false());
    assert!(text("a").not_equal(&text("b")).unwrap().is_true());
}

#[test]
fn equality_goes_by_the_left_operand() {
    assert!(num(1.0).equal(&text("1")).unwrap().is_true());
    assert!(text("1").equal(&num(1.0)).unwrap().is_true());
    assert!(Value::True.equal(&num(1.0)).unwrap().is_false());
    assert!(Value::Null.equal(&Value::Null).unwrap().is_true());
    assert!(num(1.0).equal(&text("abc")).is_err());
}

#[test]
fn text_forms() {
    assert_eq!(num(1.0).to_text(), "1");
    assert_eq!(num(0.0).to_text(), "0");
    assert_eq!(num(-2.0).to_text(), "-2");
    assert_eq!(num(0.5).to_text(), "0.5");
    assert_eq!(Value::Null.to_text(), "null");
    assert_eq!(Value::True.to_text(), "true");
    match Value::Null.as_string() {
        Value::Str(s) => assert_eq!(s, ""),
        _ => panic!("expected text"),
    }
}

#[test]
fn parse_number_reads_decimal_text() {
    assert_eq!(number::parse_number("3.5"), Some(3.5f64.to_bits()));
    assert_eq!(number::parse_number("abc"), None);
    assert_eq!(number::parse_number(""), None);
}

#[test]
fn bit_level_comparisons_match_the_host() {
    let samples: [f64; 7] = [f64::NAN, f64::INFINITY, -0.0, 0.0, 2.0, -2.0, 5e-324];
    for &a in samples.iter() {
        for &b in samples.iter() {
            assert_eq!(number::lt_bits(a.to_bits(), b.to_bits()), a < b);
            assert_eq!(number::le_bits(a.to_bits(), b.to_bits()), a <= b);
            assert_eq!(number::eq_bits(a.to_bits(), b.to_bits()), a == b);
        }
        assert_eq!(number::neg_bits(a.to_bits()), (-a).to_bits());
        assert_eq!(number::is_nan_bits(a.to_bits()), a.is_nan());
        assert_eq!(number::is_zero_bits(a.to_bits()), a == 0.0 && !a.is_nan());
    }
}
