use barvinok::constraint::Constraint;
use barvinok::context::Context;
use barvinok::local_space::LocalSpace;
use barvinok::sets::BasicSet;
use barvinok::space::Space;
use barvinok::DimType;

#[test]
fn test_new_equality() {
    let mut ctx = Context::new();
    let space = Space::set(&mut ctx, 1, 2).unwrap();
    let ls = LocalSpace::try_from(space, &mut ctx).unwrap();
    let c = Constraint::new_equality(ls, &mut ctx);
    assert_eq!(c.is_equality(), Some(true));
    assert_eq!(c.dim(DimType::Out), Some(2));
}

#[test]
fn test_new_inequality() {
    let mut ctx = Context::new();
    let space = Space::set(&mut ctx, 1, 2).unwrap();
    let ls = LocalSpace::try_from(space, &mut ctx).unwrap();
    let c = Constraint::new_inequality(ls, &mut ctx);
    assert_eq!(c.is_equality(), Some(false));
    assert_eq!(c.dim(DimType::Param), Some(1));
}

#[test]
fn test_inequality_constant_and_coeff() {
    let mut ctx = Context::new();
    let space = Space::set(&mut ctx, 1, 2).unwrap();
    let ls = LocalSpace::try_from(space, &mut ctx).unwrap();
    let c = Constraint::new_inequality(ls, &mut ctx);
    let c = c.set_constant_si(5, &mut ctx).unwrap();
    let c = c.set_coefficient_si(DimType::Out, 0, 3, &mut ctx).unwrap();
    let constant = c.get_constant(&mut ctx);
    assert_eq!(constant.numerator(), 5);
    let coeff = c.get_coefficient(DimType::Out, 0, &mut ctx).unwrap();
    assert_eq!(coeff.numerator(), 3);
}

#[test]
fn test_set_constant_and_coeff() {
    let mut ctx = Context::new();
    let space = Space::set(&mut ctx, 1, 2).unwrap();
    let ls = LocalSpace::try_from(space, &mut ctx).unwrap();
    let c = Constraint::new_equality(ls, &mut ctx);
    let c = c.set_constant_si(-7, &mut ctx).unwrap();
    let c = c.set_coefficient_si(DimType::Param, 0, 2, &mut ctx).unwrap();
    assert_eq!(c.get_constant(&mut ctx).numerator(), -7);
    assert_eq!(
        c.get_coefficient(DimType::Param, 0, &mut ctx).unwrap().numerator(),
        2
    );
    // a coefficient position out of range is a foreign invalid argument
    let bad = c.set_coefficient_si(DimType::Out, 9, 1, &mut ctx);
    assert_eq!(
        bad.err().unwrap().isl_kind(),
        Some(barvinok::error::ISLErrorKind::Invalid)
    );
}

#[test]
fn test_negate() {
    let mut ctx = Context::new();
    let space = Space::set(&mut ctx, 0, 1).unwrap();
    let ls = LocalSpace::try_from(space, &mut ctx).unwrap();
    let c = Constraint::new_inequality(ls, &mut ctx);
    let c = c.set_constant_si(5, &mut ctx).unwrap();
    let c = c.set_coefficient_si(DimType::Out, 0, 3, &mut ctx).unwrap();
    let n = c.negate(&mut ctx);
    // an inequality e >= 0 negates to -e - 1 >= 0
    assert_eq!(n.get_constant(&mut ctx).numerator(), -6);
    assert_eq!(
        n.get_coefficient(DimType::Out, 0, &mut ctx).unwrap().numerator(),
        -3
    );
    // negating twice restores the constraint
    let back = n.negate(&mut ctx);
    assert_eq!(back.get_constant(&mut ctx).numerator(), 5);
    assert_eq!(
        back.get_coefficient(DimType::Out, 0, &mut ctx).unwrap().numerator(),
        3
    );
}

#[test]
fn test_into_basic_set() {
    let mut ctx = Context::new();
    let space = Space::set(&mut ctx, 0, 2).unwrap();
    let ls = LocalSpace::try_from(space, &mut ctx).unwrap();
    let c = Constraint::new_inequality(ls, &mut ctx);
    let c = c.set_coefficient_si(DimType::Out, 0, 1, &mut ctx).unwrap();
    let bs = BasicSet::try_from(c, &mut ctx).unwrap();
    assert_eq!(bs.num_dims().unwrap(), 2);
}

#[test]
fn test_involves_dims() {
    let mut ctx = Context::new();
    let space = Space::set(&mut ctx, 0, 3).unwrap();
    let ls = LocalSpace::try_from(space, &mut ctx).unwrap();
    let c = Constraint::new_inequality(ls, &mut ctx);
    let c = c.set_coefficient_si(DimType::Out, 1, 4, &mut ctx).unwrap();
    assert_eq!(c.involves_dims(DimType::Out, 0, 1), Some(false));
    assert_eq!(c.involves_dims(DimType::Out, 0, 2), Some(true));
    assert_eq!(c.involves_dims(DimType::Out, 2, 1), Some(false));
    assert_eq!(c.involves_dims(DimType::Out, 0, 4), None);
    assert_eq!(c.is_lower_bound(DimType::Out, 1), Some(true));
    assert_eq!(c.is_upper_bound(DimType::Out, 1), Some(false));
}
