use barvinok::context::Context;
use barvinok::ident::Ident;
use barvinok::local_space::LocalSpace;
use barvinok::space::Space;
use barvinok::DimType;

#[test]
fn test_local_space() {
    let mut ctx = Context::new();
    let space = Space::new(&mut ctx, 2, 3, 4).unwrap();
    let probe = space.copy(&mut ctx);
    let local_space = LocalSpace::try_from(space, &mut ctx).unwrap();
    let back = local_space.get_space(&mut ctx);
    assert_eq!(
        back.get_dim(DimType::Param).unwrap(),
        probe.get_dim(DimType::Param).unwrap()
    );
    assert_eq!(back.get_dim(DimType::In).unwrap(), probe.get_dim(DimType::In).unwrap());
    assert_eq!(back.get_dim(DimType::Out).unwrap(), probe.get_dim(DimType::Out).unwrap());
    assert_eq!(local_space.is_params(), Some(false));
    assert_eq!(local_space.is_set(), Some(false));
    assert_eq!(local_space.dim(DimType::Param), Some(2));
    assert_eq!(local_space.dim(DimType::In), Some(3));
    assert_eq!(local_space.dim(DimType::Out), Some(4));
}

#[test]
fn test_mutate_shapes() {
    let mut ctx = Context::new();
    let space = Space::new(&mut ctx, 2, 3, 4).unwrap();
    let mut local_space = LocalSpace::try_from(space, &mut ctx).unwrap();
    local_space.add_dims(DimType::Param, 2, &mut ctx);
    assert_eq!(local_space.dim(DimType::Param), Some(4));
    let input_id = Ident::new(&mut ctx, "input").unwrap();
    local_space.set_tuple_id(DimType::In, input_id, &mut ctx);
    local_space.set_dim_name(DimType::Out, 0, "y", &mut ctx).unwrap();
    assert!(local_space.get_dim_id(DimType::In, 0, &mut ctx).is_none());
    assert!(local_space.get_dim_id(DimType::Out, 0, &mut ctx).is_some());
    assert_eq!(local_space.get_dim_name(DimType::Out, 0).unwrap(), Some("y"));
}

#[test]
fn test_find_dim_by_name() {
    let mut ctx = Context::new();
    let space = Space::new(&mut ctx, 1, 0, 3).unwrap();
    let mut ls = LocalSpace::try_from(space, &mut ctx).unwrap();
    ls.set_dim_name(DimType::Out, 1, "j", &mut ctx).unwrap();
    assert_eq!(ls.find_dim_by_name(DimType::Out, "j"), Some(1));
    assert_eq!(ls.find_dim_by_name(DimType::Out, "k"), None);
}

#[test]
fn test_shape_surgery() {
    let mut ctx = Context::new();
    let space = Space::new(&mut ctx, 1, 0, 3).unwrap();
    let mut ls = LocalSpace::try_from(space, &mut ctx).unwrap();
    ls.set_dim_name(DimType::Out, 2, "k", &mut ctx).unwrap();
    ls.insert_dims(DimType::Out, 0, 2, &mut ctx);
    assert_eq!(ls.dim(DimType::Out), Some(5));
    // the named dimension moved right with the insertion
    assert_eq!(ls.get_dim_name(DimType::Out, 4).unwrap(), Some("k"));
    ls.drop_dims(DimType::Out, 0, 2, &mut ctx);
    assert_eq!(ls.dim(DimType::Out), Some(3));
    assert_eq!(ls.get_dim_name(DimType::Out, 2).unwrap(), Some("k"));
}
