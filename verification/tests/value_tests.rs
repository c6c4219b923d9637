use barvinok::context::Context;
use barvinok::value::Value;

#[test]
fn test_value() {
    let mut ctx = Context::new();
    let val = Value::new_si(&mut ctx, 42);
    assert_eq!(val.numerator(), 42);
    assert_eq!(val.denominator(), 1);
}

#[test]
fn test_value_clone() {
    let mut ctx = Context::new();
    let val = Value::new_si(&mut ctx, 42);
    let val_clone = val.copy(&mut ctx);
    assert_eq!(val_clone.numerator(), 42);
    assert_eq!(val_clone.denominator(), 1);
}

#[test]
fn test_value_abs_eq() {
    let mut ctx = Context::new();
    let val1 = Value::new_si(&mut ctx, 42);
    let val2 = Value::new_si(&mut ctx, -42);
    assert!(val1.abs_eq(&val2).unwrap());
}

#[test]
fn test_value_cmp() {
    let mut ctx = Context::new();
    let val1 = Value::new_si(&mut ctx, 42);
    let val2 = Value::new_si(&mut ctx, 43);
    assert!(val1 < val2);
    assert!(val1 <= val2);
    assert!(val2 > val1);
    assert!(val2 >= val1);
    assert!(val1 != val2);
    assert!(val1 == val1);
    assert!(val2 == val2);
}

#[test]
fn test_value_special() {
    let mut ctx = Context::new();
    let val_zero = Value::new_zero(&mut ctx);
    let val_one = Value::new_one(&mut ctx);
    let val_negone = Value::new_negone(&mut ctx);
    let val_nan = Value::new_nan(&mut ctx);
    let val_infty = Value::new_infty(&mut ctx);
    let val_neg_infty = Value::new_neg_infty(&mut ctx);

    assert!(val_zero.is_zero().unwrap());
    assert!(val_one.is_one().unwrap());
    assert!(val_negone.is_negone().unwrap());
    assert!(val_nan.is_nan().unwrap());
    assert!(val_infty.is_infty().unwrap());
    assert!(val_neg_infty.is_neg_infty().unwrap());

    // some random cross checkings
    assert!(!val_zero.is_one().unwrap());
    assert!(!val_one.is_zero().unwrap());
    assert!(!val_zero.is_nan().unwrap());
    assert!(!val_one.is_nan().unwrap());
    assert!(!val_zero.is_infty().unwrap());
    assert!(!val_one.is_infty().unwrap());
    assert!(!val_zero.is_neg_infty().unwrap());
    assert!(!val_one.is_neg_infty().unwrap());
    assert!(!val_nan.is_zero().unwrap());
}

#[test]
fn test_value_divisible_by() {
    let mut ctx = Context::new();
    let val1 = Value::new_si(&mut ctx, 42);
    let val2 = Value::new_si(&mut ctx, 7);
    assert!(val1.divisible_by(&val2).unwrap());
    assert!(!val2.divisible_by(&val1).unwrap());
}

#[test]
fn test_value_cmp_si() {
    let mut ctx = Context::new();
    let val = Value::new_si(&mut ctx, 42);
    assert_eq!(val.cmp_si(42), Some(std::cmp::Ordering::Equal));
    assert_eq!(val.cmp_si(43), Some(std::cmp::Ordering::Less));
    assert_eq!(val.cmp_si(41), Some(std::cmp::Ordering::Greater));
    assert_eq!(val.cmp_si(0), Some(std::cmp::Ordering::Greater));
}

#[test]
fn test_unary_methods() {
    let mut ctx = Context::new();
    let val = Value::new_si(&mut ctx, 42);
    assert_eq!(val.copy(&mut ctx).abs(&mut ctx).numerator(), 42);
    assert_eq!(val.copy(&mut ctx).floor(&mut ctx).numerator(), 42);
    assert_eq!(val.copy(&mut ctx).ceil(&mut ctx).numerator(), 42);
    assert_eq!(val.copy(&mut ctx).trunc(&mut ctx).numerator(), 42);
    let inv = val.copy(&mut ctx).inv(&mut ctx);
    assert_eq!(inv.numerator(), 1);
    assert_eq!(inv.denominator(), 42);
    assert_eq!(val.copy(&mut ctx).neg(&mut ctx).numerator(), -42);
}

#[test]
fn test_binary_methods() {
    let mut ctx = Context::new();
    let val1 = Value::new_si(&mut ctx, 42);
    let val2 = Value::new_si(&mut ctx, 7);
    let sum = val1.copy(&mut ctx).checked_add(val2.copy(&mut ctx), &mut ctx).unwrap();
    assert_eq!(sum.numerator(), 49);
    let diff = val1.copy(&mut ctx).checked_sub(val2.copy(&mut ctx), &mut ctx).unwrap();
    assert_eq!(diff.numerator(), 35);
    let prod = val1.copy(&mut ctx).checked_mul(val2.copy(&mut ctx), &mut ctx).unwrap();
    assert_eq!(prod.numerator(), 294);
    let quot = val1.checked_div(val2, &mut ctx).unwrap();
    assert_eq!(quot.numerator(), 6);
    assert_eq!(quot.denominator(), 1);
}

#[test]
fn test_binary_methods_ui() {
    let mut ctx = Context::new();
    let val = Value::new_si(&mut ctx, 42);
    assert_eq!(val.copy(&mut ctx).add_ui(7, &mut ctx).unwrap().numerator(), 49);
    assert_eq!(val.copy(&mut ctx).sub_ui(7, &mut ctx).unwrap().numerator(), 35);
    assert_eq!(val.copy(&mut ctx).mul_ui(7, &mut ctx).unwrap().numerator(), 294);
    assert_eq!(val.copy(&mut ctx).div_ui(7, &mut ctx).unwrap().numerator(), 6);
}

#[test]
fn test_val_exp2() {
    let mut ctx = Context::new();
    let val = Value::new_nan(&mut ctx);
    assert!(val.checked_exp2(&mut ctx).is_err());
    let val = Value::new_si(&mut ctx, 42);
    let val = val.checked_exp2(&mut ctx).unwrap();
    assert_eq!(val.numerator(), 4398046511104);
    assert_eq!(val.denominator(), 1);
}

#[test]
fn test_division_like_int_operations() {
    let mut ctx = Context::new();
    let val1 = Value::new_si(&mut ctx, 42);
    let val2 = Value::new_si(&mut ctx, 7);
    let rem = val1.copy(&mut ctx).checked_rem(val2.copy(&mut ctx), &mut ctx).unwrap();
    assert_eq!(rem.numerator(), 0);
    let gcd = val1.copy(&mut ctx).checked_gcd(val2.copy(&mut ctx), &mut ctx).unwrap();
    assert_eq!(gcd.numerator(), 7);
    let (gcd, x, y) = val1.checked_exgcd(val2, &mut ctx).unwrap();
    assert_eq!(gcd.numerator(), 7);
    assert_eq!(x.numerator(), 0);
    assert_eq!(y.numerator(), 1);
}

#[test]
fn test_create_val_from_ctx_ref() {
    let mut ctx = Context::new();
    let val = Value::new_si(&mut ctx, 42);
    let ctx_ref = val.context_ref();
    assert_eq!(ctx_ref, ctx.context_ref());
    let val2 = Value::new_si(&mut ctx, 42);
    assert_eq!(val2.numerator(), 42);
    assert_eq!(val2.denominator(), 1);
}

#[test]
fn test_print_inv() {
    let mut ctx = Context::new();
    let val = Value::new_si(&mut ctx, 42);
    println!("val: {:?}/{:?}", val.numerator(), val.denominator());
    let val_inv = val.copy(&mut ctx).inv(&mut ctx);
    println!("val_inv: {:?}/{:?}", val_inv.numerator(), val_inv.denominator());
    assert_eq!(val_inv.numerator(), 1);
    assert_eq!(val_inv.denominator(), 42);
}

#[test]
fn test_new_from_string() {
    let mut ctx = Context::new();
    let val = Value::new_from_string(&mut ctx, "42").unwrap();
    assert_eq!(val.numerator(), 42);
    assert_eq!(val.denominator(), 1);

    let val = Value::new_from_string(&mut ctx, "nan");
    assert!(val.unwrap().is_nan().unwrap());

    let val = Value::new_from_string(&mut ctx, "infty");
    assert!(val.unwrap().is_infty().unwrap());

    let val = Value::new_from_string(&mut ctx, "5/12").unwrap();
    assert_eq!(val.numerator(), 5);
    assert_eq!(val.denominator(), 12);
}

#[test]
fn test_new_from_string_rejections() {
    let mut ctx = Context::new();
    assert!(Value::new_from_string(&mut ctx, "").is_err());
    assert!(Value::new_from_string(&mut ctx, "4a2").is_err());
    assert!(Value::new_from_string(&mut ctx, "-infty").unwrap().is_neg_infty().unwrap());
    // an embedded NUL never reaches the foreign call: the operation
    // counter stays put
    let ops_before = ctx.operation_count();
    assert!(Value::new_from_string(&mut ctx, "4\u{0}2").is_err());
    assert_eq!(ctx.operation_count(), ops_before);
    // a negated fraction reduces to lowest terms
    let v = Value::new_from_string(&mut ctx, "-6/4").unwrap();
    assert_eq!(v.numerator(), -3);
    assert_eq!(v.denominator(), 2);
}

#[test]
fn test_value_chunk_assembly() {
    // little-endian 32-bit chunks assemble into one integer
    let mut ctx = Context::new();
    let val = Value::new_chunks(&mut ctx, &[0u32, 2u32]).unwrap();
    assert_eq!(val.numerator(), 2i64 << 32);
    assert_eq!(val.denominator(), 1);
    // a value beyond the stored words is an allocation failure
    let too_big = Value::new_chunks(&mut ctx, &[0u32, 2u32, 2u32]);
    assert!(too_big.is_err());
}

#[test]
fn test_rational_arithmetic_reduces() {
    let mut ctx = Context::new();
    let half = Value::new_from_string(&mut ctx, "1/2").unwrap();
    let half2 = Value::new_from_string(&mut ctx, "1/2").unwrap();
    let one = half.checked_add(half2, &mut ctx).unwrap();
    assert_eq!(one.numerator(), 1);
    assert_eq!(one.denominator(), 1);
    assert!(one.is_one().unwrap());
}

#[test]
fn test_query_idempotence() {
    // repeated non-consuming projections on an unmodified object answer
    // the same every time
    let mut ctx = Context::new();
    let val = Value::new_from_string(&mut ctx, "5/12").unwrap();
    assert_eq!(val.is_int(), val.is_int());
    assert_eq!(val.numerator(), val.numerator());
    assert_eq!(val.denominator(), val.denominator());
    assert_eq!(val.cmp_si(1), val.cmp_si(1));
}
