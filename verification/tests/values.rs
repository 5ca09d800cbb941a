//! Arithmetic, comparison and truthiness of runtime values, checked against
//! hardware floating point via bit patterns.

use plxml::arith;
use plxml::error::EvalError;
use plxml::heap::Heap;
use plxml::value::Value;

fn ints(xs: &[i64]) -> Vec<Value> {
    xs.iter().map(|x| Value::Integer(*x)).collect()
}

#[test]
fn add_integers_is_integer_sum() {
    let r = arith::add(&ints(&[1, 2, 3]));
    assert!(matches!(r, Ok(Value::Integer(6))));
}

#[test]
fn add_empty_is_zero() {
    let r = arith::add(&Vec::new());
    assert!(matches!(r, Ok(Value::Integer(0))));
}

#[test]
fn add_wraps_on_overflow() {
    let r = arith::add(&ints(&[i64::MAX, 1]));
    assert!(matches!(r, Ok(Value::Integer(i64::MIN))));
}

#[test]
fn add_commutes_and_associates() {
    let a = 123456789_i64;
    let b = -987654321_i64;
    let c = 555_i64;
    let ab = match arith::add(&ints(&[a, b])) {
        Ok(Value::Integer(x)) => x,
        _ => panic!("expected integer"),
    };
    let ba = match arith::add(&ints(&[b, a])) {
        Ok(Value::Integer(x)) => x,
        _ => panic!("expected integer"),
    };
    assert_eq!(ab, ba);
    let bc = match arith::add(&ints(&[b, c])) {
        Ok(Value::Integer(x)) => x,
        _ => panic!("expected integer"),
    };
    let left = match arith::add(&ints(&[ab, c])) {
        Ok(Value::Integer(x)) => x,
        _ => panic!("expected integer"),
    };
    let right = match arith::add(&ints(&[a, bc])) {
        Ok(Value::Integer(x)) => x,
        _ => panic!("expected integer"),
    };
    assert_eq!(left, right);
}

#[test]
fn add_mixing_real_gives_real() {
    let r = arith::add(&vec![Value::Integer(1), Value::Real(2.5f64.to_bits())]);
    match r {
        Ok(Value::Real(bits)) => {
            let expect = (0.0f64 + 1.0f64 + 2.5f64).to_bits();
            assert_eq!(bits, expect);
        }
        _ => panic!("expected real"),
    }
}

#[test]
fn add_real_matches_hardware_bits() {
    let x = 0.1f64;
    let y = 0.2f64;
    let r = arith::add(&vec![Value::Real(x.to_bits()), Value::Real(y.to_bits())]);
    match r {
        Ok(Value::Real(bits)) => {
            assert_eq!(bits, (0.0f64 + x + y).to_bits());
        }
        _ => panic!("expected real"),
    }
}

#[test]
fn add_mixing_text_concatenates_in_order() {
    let r = arith::add(&vec![
        Value::Integer(4),
        Value::Text(String::from(" cats")),
    ]);
    match r {
        Ok(Value::Text(s)) => assert_eq!(s, "4 cats"),
        _ => panic!("expected text"),
    }
}

#[test]
fn subtract_rejects_text() {
    let r = arith::subtract(&vec![Value::Integer(4), Value::Text(String::from("x"))]);
    assert!(matches!(r, Err(EvalError::TypeError(_, _))));
}

#[test]
fn multiply_rejects_text() {
    let r = arith::multiply(&vec![Value::Text(String::from("x")), Value::Integer(4)]);
    assert!(matches!(r, Err(EvalError::TypeError(_, _))));
}

#[test]
fn subtract_folds_first_minus_sum_of_rest() {
    let r = arith::subtract(&ints(&[10, 3, 2]));
    assert!(matches!(r, Ok(Value::Integer(5))));
}

#[test]
fn subtract_empty_fails() {
    let r = arith::subtract(&Vec::new());
    assert!(matches!(r, Err(EvalError::TypeError(_, _))));
}

#[test]
fn multiply_folds_product() {
    let r = arith::multiply(&ints(&[2, 3, 4]));
    assert!(matches!(r, Ok(Value::Integer(24))));
}

#[test]
fn multiply_empty_is_one() {
    let r = arith::multiply(&Vec::new());
    assert!(matches!(r, Ok(Value::Integer(1))));
}

#[test]
fn divide_is_reciprocal_product_not_sequential() {
    // Find operands where a*(1/b)*(1/c) and (a/b)/c disagree in the last
    // bit, and check the engine follows the reciprocal-product form.
    let mut found = false;
    for bi in 3..60_i64 {
        let a = 1.0f64;
        let b = bi as f64;
        let c = 7.0f64;
        let recip = a * (1.0 / b) * (1.0 / c);
        let seq = a / b / c;
        let r = arith::divide(&vec![
            Value::Real(a.to_bits()),
            Value::Real(b.to_bits()),
            Value::Real(c.to_bits()),
        ]);
        match r {
            Ok(Value::Real(bits)) => {
                assert_eq!(bits, recip.to_bits());
                if recip.to_bits() != seq.to_bits() {
                    found = true;
                }
            }
            _ => panic!("expected real"),
        }
    }
    assert!(found, "no diverging operands found");
}

#[test]
fn divide_always_real_and_by_zero_is_infinite() {
    let r = arith::divide(&vec![Value::Integer(6), Value::Integer(3)]);
    match r {
        Ok(Value::Real(bits)) => assert_eq!(f64::from_bits(bits), 2.0),
        _ => panic!("expected real"),
    }
    let z = arith::divide(&vec![Value::Integer(1), Value::Integer(0)]);
    match z {
        Ok(Value::Real(bits)) => assert!(f64::from_bits(bits).is_infinite()),
        _ => panic!("expected real"),
    }
}

#[test]
fn divide_empty_fails() {
    let r = arith::divide(&Vec::new());
    assert!(matches!(r, Err(EvalError::TypeError(_, _))));
}

#[test]
fn compare_nan_fails_on_either_side() {
    let nan = f64::NAN.to_bits();
    let r = arith::compare(&Value::Real(nan), &Value::Integer(1));
    assert!(matches!(r, Err(EvalError::TypeError(_, _))));
    let r2 = arith::compare(&Value::Text(String::from("x")), &Value::Real(nan));
    assert!(matches!(r2, Err(EvalError::TypeError(_, _))));
    let r3 = arith::compare(&Value::Real(nan), &Value::Real(nan));
    assert!(matches!(r3, Err(EvalError::TypeError(_, _))));
}

#[test]
fn compare_texts_lexicographically() {
    let r = arith::compare(
        &Value::Text(String::from("abc")),
        &Value::Text(String::from("abd")),
    );
    assert!(matches!(r, Ok(-1)));
    let r2 = arith::compare(
        &Value::Text(String::from("abc")),
        &Value::Text(String::from("abc")),
    );
    assert!(matches!(r2, Ok(0)));
}

#[test]
fn compare_integer_against_equal_real_is_zero() {
    let r = arith::compare(&Value::Integer(5), &Value::Real(5.0f64.to_bits()));
    assert!(matches!(r, Ok(0)));
}

#[test]
fn compare_mixed_numbers_orders_by_value() {
    let r = arith::compare(&Value::Real(2.5f64.to_bits()), &Value::Integer(3));
    assert!(matches!(r, Ok(-1)));
    let r2 = arith::compare(&Value::Integer(3), &Value::Real(2.5f64.to_bits()));
    assert!(matches!(r2, Ok(1)));
}

#[test]
fn compare_negative_zero_equals_positive_zero() {
    let r = arith::compare(
        &Value::Real((-0.0f64).to_bits()),
        &Value::Real(0.0f64.to_bits()),
    );
    assert!(matches!(r, Ok(0)));
}

#[test]
fn compare_incompatible_types_fails() {
    let r = arith::compare(&Value::Integer(1), &Value::Text(String::from("1")));
    assert!(matches!(r, Err(EvalError::TypeError(_, _))));
}

#[test]
fn integer_overflow_comparison_keeps_sign() {
    let r = arith::compare(&Value::Integer(i64::MIN), &Value::Integer(i64::MAX));
    assert!(matches!(r, Ok(-1)));
    let r2 = arith::compare(&Value::Integer(i64::MAX), &Value::Integer(i64::MIN));
    assert!(matches!(r2, Ok(1)));
}

#[test]
fn truthiness_rules() {
    let heap = Heap::new();
    assert!(!Value::Integer(0).to_bool(&heap));
    assert!(Value::Integer(-3).to_bool(&heap));
    assert!(!Value::Real(0.0f64.to_bits()).to_bool(&heap));
    assert!(!Value::Real((-0.0f64).to_bits()).to_bool(&heap));
    assert!(Value::Real(f64::NAN.to_bits()).to_bool(&heap));
    assert!(!Value::Text(String::new()).to_bool(&heap));
    assert!(Value::Text(String::from("a")).to_bool(&heap));
    assert!(Value::Native(plxml::stl::NativeKind::Print).to_bool(&heap));
}

#[test]
fn and_or_encode_truthiness() {
    let heap = Heap::new();
    let t = arith::and(&ints(&[1, 2]), &heap);
    assert!(matches!(t, Value::Integer(1)));
    let f = arith::and(&ints(&[1, 0]), &heap);
    assert!(matches!(f, Value::Integer(0)));
    let o = arith::or(&ints(&[0, 7]), &heap);
    assert!(matches!(o, Value::Integer(1)));
    let z = arith::or(&ints(&[0, 0]), &heap);
    assert!(matches!(z, Value::Integer(0)));
    let e = arith::and(&Vec::new(), &heap);
    assert!(matches!(e, Value::Integer(1)));
    let eo = arith::or(&Vec::new(), &heap);
    assert!(matches!(eo, Value::Integer(0)));
}

#[test]
fn subtract_reals_matches_hardware_bits() {
    let r = arith::subtract(&vec![
        Value::Real(1.0f64.to_bits()),
        Value::Real(0.1f64.to_bits()),
        Value::Real(0.2f64.to_bits()),
    ]);
    match r {
        Ok(Value::Real(bits)) => {
            assert_eq!(bits, (1.0f64 - (0.0f64 + 0.1f64 + 0.2f64)).to_bits());
        }
        _ => panic!("expected real"),
    }
}

#[test]
fn multiply_reals_matches_hardware_bits() {
    let r = arith::multiply(&vec![
        Value::Real(0.3f64.to_bits()),
        Value::Integer(7),
        Value::Real(1.1f64.to_bits()),
    ]);
    match r {
        Ok(Value::Real(bits)) => {
            assert_eq!(bits, (1.0f64 * 0.3f64 * 7.0f64 * 1.1f64).to_bits());
        }
        _ => panic!("expected real"),
    }
}
