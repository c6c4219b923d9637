use barvinok::context::Context;
use barvinok::ident::Ident;
use barvinok::space::Space;
use barvinok::DimType;

#[test]
fn test_space_creation() {
    let mut ctx = Context::new();
    let space = Space::new(&mut ctx, 2, 4, 3).unwrap();
    assert_eq!(space.get_dim(DimType::Param).unwrap(), 2);
    assert_eq!(space.get_dim(DimType::In).unwrap(), 4);
    assert_eq!(space.get_dim(DimType::Out).unwrap(), 3);
    assert!(space.is_map().unwrap());
}

#[test]
fn test_space_params() {
    let mut ctx = Context::new();
    let space = Space::params(&mut ctx, 2).unwrap();
    assert!(space.is_params().unwrap());
    assert_eq!(space.get_dim(DimType::Param).unwrap(), 2);
}

#[test]
fn test_space_unit() {
    let mut ctx = Context::new();
    let space = Space::unit(&mut ctx).unwrap();
    assert_eq!(space.get_dim(DimType::All).unwrap(), 0);
    assert!(space.is_set().unwrap());
}

#[test]
fn test_space_set() {
    let mut ctx = Context::new();
    let space = Space::set(&mut ctx, 2, 4).unwrap();
    assert!(space.is_set().unwrap());
    assert_eq!(space.get_dim(DimType::Param).unwrap(), 2);
    assert_eq!(space.get_dim(DimType::Out).unwrap(), 4);
}

#[test]
fn test_space_add_param_id() {
    let mut ctx = Context::new();
    let space = Space::set(&mut ctx, 2, 4).unwrap();
    let id = Ident::new(&mut ctx, "x").unwrap();
    let space = space.add_param_id(id, &mut ctx).unwrap();
    assert_eq!(space.get_dim(DimType::Param).unwrap(), 3);
}

#[test]
fn test_space_set_tuple_name() {
    let mut ctx = Context::new();
    let space = Space::set(&mut ctx, 2, 4).unwrap();
    let space = space.set_tuple_name(DimType::In, "input", &mut ctx).unwrap();
    assert!(space.has_tuple_name(DimType::In).unwrap());
    assert_eq!(space.get_tuple_name(DimType::In, &ctx).unwrap(), "input");
}

#[test]
fn test_space_add_dims() {
    let mut ctx = Context::new();
    let space = Space::set(&mut ctx, 2, 4).unwrap();
    assert!(space.is_set().unwrap());
    let space = space.add_dims(DimType::In, 2, &mut ctx).unwrap();
    assert!(space.is_map().unwrap());
    assert_eq!(space.get_dim(DimType::In).unwrap(), 2);
}

#[test]
fn nul_in_tuple_name_is_local_error() {
    // a name holding a NUL never reaches the foreign call: the
    // operation counter stays put and the error is the local kind
    let mut ctx = Context::new();
    let space = Space::set(&mut ctx, 1, 1).unwrap();
    let ops_before = ctx.operation_count();
    let r = space.set_tuple_name(DimType::In, "in\u{0}put", &mut ctx);
    let e = r.err().unwrap();
    assert!(e.is_local());
    assert!(matches!(e, barvinok::error::Error::NulError));
    assert_eq!(ctx.operation_count(), ops_before);
}

#[test]
fn unnamed_tuple_reads_as_foreign_error() {
    let mut ctx = Context::new();
    let space = Space::set(&mut ctx, 1, 1).unwrap();
    let r = space.get_tuple_name(DimType::In, &ctx);
    let e = r.err().unwrap();
    assert!(!e.is_local());
}
