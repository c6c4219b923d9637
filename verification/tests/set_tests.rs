use barvinok::constraint::Constraint;
use barvinok::context::Context;
use barvinok::list::List;
use barvinok::local_space::LocalSpace;
use barvinok::sets::{BasicSet, IslSet};
use barvinok::space::Space;
use barvinok::DimType;

#[test]
fn test_basic_set_creation() {
    let mut ctx = Context::new();
    let space = Space::new(&mut ctx, 0, 0, 3).unwrap();
    let universe = BasicSet::universe(space.copy(&mut ctx), &mut ctx).unwrap();
    assert_eq!(universe.num_dims().unwrap(), 3);
    let empty = BasicSet::empty(space.copy(&mut ctx), &mut ctx).unwrap();
    assert_eq!(empty.num_dims().unwrap(), 3);
    let nat = BasicSet::nat_universe(space.copy(&mut ctx), &mut ctx).unwrap();
    assert_eq!(nat.num_dims().unwrap(), 3);
    let orthant = BasicSet::positive_orthant(space, &mut ctx).unwrap();
    assert_eq!(orthant.num_dims().unwrap(), 3);
}

#[test]
fn test_basic_set_bin_ops() {
    let mut ctx = Context::new();
    let space = Space::new(&mut ctx, 0, 0, 3).unwrap();
    let basic_set1 = BasicSet::universe(space.copy(&mut ctx), &mut ctx).unwrap();
    let basic_set2 = BasicSet::empty(space, &mut ctx).unwrap();
    let basic_set3 = basic_set1.intersect(basic_set2, &mut ctx).unwrap();
    assert_eq!(basic_set3.num_dims().unwrap(), 3);
}

#[test]
fn test_basic_set_list_intersect() {
    let mut ctx = Context::new();
    let space = Space::set(&mut ctx, 1, 5).unwrap();
    let basic_set1 = BasicSet::universe(space.copy(&mut ctx), &mut ctx).unwrap();
    let basic_set2 = BasicSet::empty(space, &mut ctx).unwrap();
    let mut list: List<BasicSet> = List::new(&mut ctx, 2);
    list.push(basic_set1, &mut ctx);
    list.push(basic_set2, &mut ctx);
    let intersected = list.intersect(&mut ctx);
    assert_eq!(intersected.num_dims().unwrap(), 5);
}

#[test]
fn test_construct_triangular_iteration_space() {
    // for one parameter n: indices i, j, k with
    //   0 <= i < n, 0 <= j < i, 0 <= k < j
    let mut ctx = Context::new();
    let space = Space::set(&mut ctx, 1, 3).unwrap();
    let local_space = LocalSpace::try_from(space.copy(&mut ctx), &mut ctx).unwrap();
    let i_ge_0 = Constraint::new_inequality(local_space.copy(&mut ctx), &mut ctx)
        .set_coefficient_si(DimType::Out, 0, 1, &mut ctx)
        .unwrap()
        .set_constant_si(0, &mut ctx)
        .unwrap();
    let i_lt_n = Constraint::new_inequality(local_space.copy(&mut ctx), &mut ctx)
        .set_coefficient_si(DimType::Param, 0, 1, &mut ctx)
        .unwrap()
        .set_coefficient_si(DimType::Out, 0, -1, &mut ctx)
        .unwrap()
        .set_constant_si(-1, &mut ctx)
        .unwrap();
    let j_ge_0 = Constraint::new_inequality(local_space.copy(&mut ctx), &mut ctx)
        .set_coefficient_si(DimType::Out, 1, 1, &mut ctx)
        .unwrap()
        .set_constant_si(0, &mut ctx)
        .unwrap();
    let j_lt_i = Constraint::new_inequality(local_space.copy(&mut ctx), &mut ctx)
        .set_coefficient_si(DimType::Out, 0, 1, &mut ctx)
        .unwrap()
        .set_coefficient_si(DimType::Out, 1, -1, &mut ctx)
        .unwrap()
        .set_constant_si(-1, &mut ctx)
        .unwrap();
    let k_ge_0 = Constraint::new_inequality(local_space.copy(&mut ctx), &mut ctx)
        .set_coefficient_si(DimType::Out, 2, 1, &mut ctx)
        .unwrap()
        .set_constant_si(0, &mut ctx)
        .unwrap();
    let k_lt_j = Constraint::new_inequality(local_space, &mut ctx)
        .set_coefficient_si(DimType::Out, 1, 1, &mut ctx)
        .unwrap()
        .set_coefficient_si(DimType::Out, 2, -1, &mut ctx)
        .unwrap()
        .set_constant_si(-1, &mut ctx)
        .unwrap();
    let set = IslSet::universe(space, &mut ctx)
        .unwrap()
        .add_constraint(i_ge_0, &mut ctx)
        .unwrap()
        .add_constraint(i_lt_n, &mut ctx)
        .unwrap()
        .add_constraint(j_ge_0, &mut ctx)
        .unwrap()
        .add_constraint(j_lt_i, &mut ctx)
        .unwrap()
        .add_constraint(k_ge_0, &mut ctx)
        .unwrap()
        .add_constraint(k_lt_j, &mut ctx)
        .unwrap()
        .set_dim_name(DimType::Param, 0, "n", &mut ctx)
        .unwrap()
        .set_dim_name(DimType::Out, 0, "i", &mut ctx)
        .unwrap()
        .set_dim_name(DimType::Out, 1, "j", &mut ctx)
        .unwrap()
        .set_dim_name(DimType::Out, 2, "k", &mut ctx)
        .unwrap();
    assert_eq!(set.num_basic_sets().unwrap(), 1);
    assert!(!set.plain_is_empty().unwrap());
    assert!(!set.plain_is_universe().unwrap());
}

#[test]
fn set_union_and_reductions() {
    let mut ctx = Context::new();
    let space = Space::set(&mut ctx, 0, 2).unwrap();
    let u = IslSet::universe(space.copy(&mut ctx), &mut ctx).unwrap();
    let e = IslSet::empty(space.copy(&mut ctx), &mut ctx).unwrap();
    assert!(e.plain_is_empty().unwrap());
    assert!(u.plain_is_universe().unwrap());
    let both = u.union(e, &mut ctx).unwrap();
    assert_eq!(both.num_basic_sets().unwrap(), 1);
    let v = IslSet::universe(space, &mut ctx).unwrap();
    let mut list: List<IslSet> = List::new(&mut ctx, 2);
    list.push(both, &mut ctx);
    list.push(v, &mut ctx);
    let united = list.union(&mut ctx);
    assert_eq!(united.num_basic_sets().unwrap(), 2);
}

#[test]
fn incompatible_spaces_report_invalid() {
    let mut ctx = Context::new();
    let s2 = Space::set(&mut ctx, 0, 2).unwrap();
    let s3 = Space::set(&mut ctx, 0, 3).unwrap();
    let a = BasicSet::universe(s2, &mut ctx).unwrap();
    let b = BasicSet::universe(s3, &mut ctx).unwrap();
    let r = a.intersect(b, &mut ctx);
    assert_eq!(
        r.err().unwrap().isl_kind(),
        Some(barvinok::error::ISLErrorKind::Invalid)
    );
}
