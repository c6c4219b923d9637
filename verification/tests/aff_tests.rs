use barvinok::aff::Affine;
use barvinok::context::Context;
use barvinok::local_space::LocalSpace;
use barvinok::space::Space;
use barvinok::value::Value;
use barvinok::DimType;

#[test]
fn test_aff() {
    let mut ctx = Context::new();
    let space = Space::set(&mut ctx, 2, 2).unwrap();
    let aff = Affine::zero_on_domain_space(space, &mut ctx).unwrap();
    assert!(aff.is_cst().unwrap());
    assert_eq!(aff.get_constant_val(&mut ctx).unwrap().numerator(), 0);
}

#[test]
fn test_aff_with_name() {
    let mut ctx = Context::new();
    let space = Space::set(&mut ctx, 2, 2).unwrap();
    let aff = Affine::zero_on_domain_space(space, &mut ctx)
        .unwrap()
        .set_dim_name(DimType::Param, 0, "N", &mut ctx)
        .unwrap()
        .set_dim_name(DimType::Param, 1, "M", &mut ctx)
        .unwrap();
    let ls = aff.get_local_space(&mut ctx).unwrap();
    assert_eq!(ls.get_dim_name(DimType::Param, 0).unwrap(), Some("N"));
    assert_eq!(ls.get_dim_name(DimType::Param, 1).unwrap(), Some("M"));
}

#[test]
fn test_aff_binary() {
    let mut ctx = Context::new();
    let space = Space::set(&mut ctx, 2, 2).unwrap();
    let local_space = LocalSpace::try_from(space, &mut ctx).unwrap();
    let aff1 =
        Affine::var_on_domain(local_space.copy(&mut ctx), DimType::Param, 0, &mut ctx).unwrap();
    let aff2 =
        Affine::var_on_domain(local_space.copy(&mut ctx), DimType::Out, 1, &mut ctx).unwrap();
    let aff3 = Affine::zero_on_domain(local_space, &mut ctx).unwrap();
    let aff4 = aff1.checked_add(aff2, &mut ctx).unwrap();
    let aff5 = aff4.checked_add(aff3, &mut ctx).unwrap();
    assert!(!aff5.is_cst().unwrap());
    assert_eq!(aff5.context_ref(), ctx.context_ref());
}

#[test]
fn division_is_division() {
    // constant division folds to the exact quotient — division, not a
    // multiplication in disguise
    let mut ctx = Context::new();
    let space = Space::set(&mut ctx, 0, 1).unwrap();
    let ls = LocalSpace::try_from(space, &mut ctx).unwrap();
    let six = Value::new_si(&mut ctx, 6);
    let three = Value::new_si(&mut ctx, 3);
    let a = Affine::val_on_domain(ls.copy(&mut ctx), six, &mut ctx).unwrap();
    let b = Affine::val_on_domain(ls, three, &mut ctx).unwrap();
    let q = a.checked_div(b, &mut ctx).unwrap();
    let v = q.get_constant_val(&mut ctx).unwrap();
    assert_eq!(v.numerator(), 2);
    assert_eq!(v.denominator(), 1);
}

#[test]
fn division_by_zero_is_nan() {
    let mut ctx = Context::new();
    let space = Space::set(&mut ctx, 0, 1).unwrap();
    let ls = LocalSpace::try_from(space, &mut ctx).unwrap();
    let six = Value::new_si(&mut ctx, 6);
    let zero = Value::new_zero(&mut ctx);
    let a = Affine::val_on_domain(ls.copy(&mut ctx), six, &mut ctx).unwrap();
    let b = Affine::val_on_domain(ls, zero, &mut ctx).unwrap();
    let q = a.checked_div(b, &mut ctx).unwrap();
    let v = q.get_constant_val(&mut ctx).unwrap();
    assert!(v.is_nan().unwrap());
}

#[test]
fn var_position_out_of_range_is_invalid() {
    let mut ctx = Context::new();
    let space = Space::set(&mut ctx, 1, 2).unwrap();
    let ls = LocalSpace::try_from(space, &mut ctx).unwrap();
    let r = Affine::var_on_domain(ls, DimType::Param, 2, &mut ctx);
    assert_eq!(
        r.err().unwrap().isl_kind(),
        Some(barvinok::error::ISLErrorKind::Invalid)
    );
}
