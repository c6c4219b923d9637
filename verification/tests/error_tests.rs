use barvinok::context::Context;
use barvinok::error::{Error, ISLErrorKind};
use barvinok::polynomial::QuasiPolynomial;
use barvinok::space::Space;
use barvinok::value::Value;
use barvinok::DimType;

#[test]
fn non_integral_value_is_local() {
    let mut ctx = Context::new();
    let nan = Value::new_nan(&mut ctx);
    let e = nan.checked_exp2(&mut ctx).err().unwrap();
    assert!(matches!(e, Error::NonIntegralValue));
    assert!(e.is_local());
}

#[test]
fn variable_position_out_of_bounds_is_local() {
    let mut ctx = Context::new();
    let space = Space::set(&mut ctx, 1, 2).unwrap();
    let ops_before = ctx.operation_count();
    let e = QuasiPolynomial::var_on_domain(space, DimType::Out, 5, &mut ctx).err().unwrap();
    assert!(matches!(e, Error::VariablePositionOutOfBounds));
    // the pre-validation fired before the foreign call
    assert_eq!(ctx.operation_count(), ops_before);
}

#[test]
fn overflowing_result_reports_allocation_failure() {
    let mut ctx = Context::new();
    let big = Value::new_si(&mut ctx, i64::MAX);
    let one = Value::new_one(&mut ctx);
    let e = big.checked_add(one, &mut ctx).err().unwrap();
    assert_eq!(e.isl_kind(), Some(ISLErrorKind::Alloc));
}

#[test]
fn unsupported_kind_round_trips() {
    let mut ctx = Context::new();
    ctx.inject_failure(Some(ISLErrorKind::Unsupported));
    let e = Space::unit(&mut ctx).err().unwrap();
    assert_eq!(e.isl_kind(), Some(ISLErrorKind::Unsupported));
    let pending = ctx.last_error().unwrap();
    assert_eq!(pending.kind(), ISLErrorKind::Unsupported);
    assert_eq!(pending.message(), "unsupported operation");
}

#[test]
fn error_code_words_classify() {
    assert_eq!(ISLErrorKind::from(1u32), ISLErrorKind::Abort);
    assert_eq!(ISLErrorKind::from(2u32), ISLErrorKind::Alloc);
    assert_eq!(ISLErrorKind::from(3u32), ISLErrorKind::Unknown);
    assert_eq!(ISLErrorKind::from(4u32), ISLErrorKind::Internal);
    assert_eq!(ISLErrorKind::from(5u32), ISLErrorKind::Invalid);
    assert_eq!(ISLErrorKind::from(6u32), ISLErrorKind::Quota);
    assert_eq!(ISLErrorKind::from(7u32), ISLErrorKind::Unsupported);
    assert_eq!(ISLErrorKind::from(99u32), ISLErrorKind::Unknown);
}

#[test]
fn sentinel_decoders() {
    assert_eq!(barvinok::stat::isl_bool_to_optional_bool(-1), None);
    assert_eq!(barvinok::stat::isl_bool_to_optional_bool(0), Some(false));
    assert_eq!(barvinok::stat::isl_bool_to_optional_bool(1), Some(true));
    assert_eq!(barvinok::stat::isl_size_to_optional_u32(-1), None);
    assert_eq!(barvinok::stat::isl_size_to_optional_u32(7), Some(7));
}

#[test]
fn nonnull_unwraps_present_results() {
    assert_eq!(barvinok::nonnull_or_alloc_error(Some(5u64)), 5);
}
