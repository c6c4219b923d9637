use barvinok::context::Context;
use barvinok::error::Error;
use barvinok::polynomial::{PiecewiseQuasiPolynomial, QuasiPolynomial};
use barvinok::space::Space;
use barvinok::value::Value;
use barvinok::DimType;

#[test]
fn test_quasi_polynomial_create() {
    let mut ctx = Context::new();
    let space = Space::set(&mut ctx, 1, 2).unwrap();
    let qpoly = QuasiPolynomial::zero_on_domain(space, &mut ctx).unwrap();
    assert_eq!(qpoly.context_ref(), ctx.context_ref());
    assert!(qpoly.is_zero().unwrap());
}

#[test]
fn test_quasi_polynomial_get_space() {
    let mut ctx = Context::new();
    let space = Space::set(&mut ctx, 1, 2).unwrap();
    let qpoly = QuasiPolynomial::one_on_domain(space, &mut ctx).unwrap();
    let space2 = qpoly.get_space(&mut ctx).unwrap();
    assert_eq!(space2.get_dim(DimType::Out).unwrap(), 1);
    let space3 = qpoly.get_domain_space(&mut ctx).unwrap();
    assert_eq!(space3.get_dim(DimType::Param).unwrap(), 1);
}

#[test]
fn test_quasi_polynomial_get_dim() {
    let mut ctx = Context::new();
    let space = Space::set(&mut ctx, 1, 2).unwrap();
    let qpoly = QuasiPolynomial::one_on_domain(space, &mut ctx).unwrap();
    let dim = qpoly.get_dim(DimType::Param).unwrap();
    assert_eq!(dim, 1);
    let dim = qpoly.get_dim(DimType::Out).unwrap();
    assert_eq!(dim, 1);
    let dim = qpoly.get_dim(DimType::In).unwrap();
    assert_eq!(dim, 2);
}

#[test]
fn test_quasi_polynomial_new_val_on_domain() {
    let mut ctx = Context::new();
    let space = Space::set(&mut ctx, 1, 2).unwrap();
    let value = Value::new_si(&mut ctx, 42);
    let qpoly = QuasiPolynomial::val_on_domain(space, value, &mut ctx).unwrap();
    assert_eq!(qpoly.context_ref(), ctx.context_ref());
    let c = qpoly.get_constant_val(&mut ctx).unwrap();
    assert_eq!(c.numerator(), 42);
}

#[test]
fn test_quasi_polynomial_new_var_on_domain() {
    let mut ctx = Context::new();
    let space = Space::set(&mut ctx, 1, 2).unwrap();
    let qpoly =
        QuasiPolynomial::var_on_domain(space.copy(&mut ctx), DimType::Param, 0, &mut ctx).unwrap();
    assert_eq!(qpoly.context_ref(), ctx.context_ref());
    let qpoly2 = QuasiPolynomial::var_on_domain(space, DimType::Out, 1, &mut ctx).unwrap();
    assert_eq!(qpoly2.context_ref(), ctx.context_ref());
}

#[test]
#[should_panic]
fn test_invalid_var_pos() {
    let mut ctx = Context::new();
    let space = Space::set(&mut ctx, 1, 2).unwrap();
    QuasiPolynomial::var_on_domain(space, DimType::Param, 2, &mut ctx).unwrap();
}

#[test]
fn test_quasi_polynomial_add() {
    let mut ctx = Context::new();
    let space = Space::set(&mut ctx, 1, 2).unwrap();
    let qpoly1 = QuasiPolynomial::one_on_domain(space.copy(&mut ctx), &mut ctx).unwrap();
    let qpoly2 = QuasiPolynomial::zero_on_domain(space, &mut ctx).unwrap();
    let qpoly3 = qpoly1.checked_add(qpoly2, &mut ctx).unwrap();
    assert_eq!(qpoly3.context_ref(), ctx.context_ref());
    assert!(qpoly3.is_zero().unwrap() == false);
    assert_eq!(qpoly3.get_constant_val(&mut ctx).unwrap().numerator(), 1);
}

#[test]
fn test_quasi_polynomial_sub() {
    let mut ctx = Context::new();
    let space = Space::set(&mut ctx, 1, 2).unwrap();
    let qpoly1 = QuasiPolynomial::zero_on_domain(space.copy(&mut ctx), &mut ctx).unwrap();
    let qpoly2 = QuasiPolynomial::one_on_domain(space, &mut ctx).unwrap();
    let qpoly3 = qpoly1.checked_sub(qpoly2, &mut ctx).unwrap();
    assert_eq!(qpoly3.context_ref(), ctx.context_ref());
    let val = qpoly3.get_constant_val(&mut ctx);
    assert!(val.is_ok());
    let val = val.unwrap();
    assert_eq!(val.numerator(), -1);
    assert_eq!(val.denominator(), 1);
}

#[test]
fn test_pw_qpolynomial_zero() {
    let mut ctx = Context::new();
    let space = Space::set(&mut ctx, 1, 2).unwrap();
    let pw_qpoly = PiecewiseQuasiPolynomial::zero(space, &mut ctx).unwrap();
    assert_eq!(pw_qpoly.context_ref(), ctx.context_ref());
    assert!(pw_qpoly.is_zero().unwrap());
    assert_eq!(pw_qpoly.num_pieces().unwrap(), 0);
}

#[test]
fn test_pw_qpolynomial_from_qpolynomial() {
    let mut ctx = Context::new();
    let space = Space::set(&mut ctx, 1, 2).unwrap();
    let qpoly = QuasiPolynomial::one_on_domain(space, &mut ctx).unwrap();
    let pw_qpoly = PiecewiseQuasiPolynomial::try_from(qpoly, &mut ctx).unwrap();
    assert_eq!(pw_qpoly.context_ref(), ctx.context_ref());
    assert_eq!(pw_qpoly.num_pieces().unwrap(), 1);
}

#[test]
fn test_qpoly_foreach_term() {
    let mut ctx = Context::new();
    let space = Space::set(&mut ctx, 1, 2).unwrap();
    let qpoly = QuasiPolynomial::one_on_domain(space, &mut ctx).unwrap();
    let (count, res) = qpoly.foreach_term(
        0usize,
        |n: usize, term: &barvinok::polynomial::Term| {
            println!("term dim(in): {:?}", term.dim(DimType::In));
            println!("term dim(out): {:?}", term.dim(DimType::Out));
            println!("term dim(param): {:?}", term.dim(DimType::Param));
            println!("term exp(in): {:?}", term.exponent(DimType::In, 0));
            println!("term exp(out): {:?}", term.exponent(DimType::Out, 0));
            println!("term exp(param): {:?}", term.exponent(DimType::Param, 0));
            (n + 1, Ok(()))
        },
        &mut ctx,
    );
    res.unwrap();
    assert_eq!(count, 1);
}

#[test]
fn callback_error_stops_the_walk() {
    // a closure failing on the second of three invocations makes the
    // driving call report exactly that error, and nothing is visited
    // afterward
    let mut ctx = Context::new();
    let space = Space::set(&mut ctx, 0, 1).unwrap();
    let q1 = QuasiPolynomial::one_on_domain(space.copy(&mut ctx), &mut ctx).unwrap();
    let q2 = QuasiPolynomial::zero_on_domain(space.copy(&mut ctx), &mut ctx).unwrap();
    let q3 = QuasiPolynomial::one_on_domain(space, &mut ctx).unwrap();
    let p1 = PiecewiseQuasiPolynomial::try_from(q1, &mut ctx).unwrap();
    let p2 = PiecewiseQuasiPolynomial::try_from(q2, &mut ctx).unwrap();
    let p3 = PiecewiseQuasiPolynomial::try_from(q3, &mut ctx).unwrap();
    let p12 = p1.add_disjoint(p2, &mut ctx).unwrap();
    let p123 = p12.add_disjoint(p3, &mut ctx).unwrap();
    assert_eq!(p123.num_pieces().unwrap(), 3);
    let (visited, res) = p123.foreach_piece(
        0usize,
        |n: usize,
         _poly: &QuasiPolynomial,
         _dom: &barvinok::sets::IslSet| {
            if n == 1 {
                (n + 1, Err(Error::ParseError))
            } else {
                (n + 1, Ok(()))
            }
        },
        &mut ctx,
    );
    assert!(matches!(res, Err(Error::ParseError)));
    // the failing call was the second; no third invocation happened
    assert_eq!(visited, 2);
}

#[test]
fn lifted_piece_walk_visits_all() {
    let mut ctx = Context::new();
    let space = Space::set(&mut ctx, 0, 1).unwrap();
    let q1 = QuasiPolynomial::one_on_domain(space.copy(&mut ctx), &mut ctx).unwrap();
    let q2 = QuasiPolynomial::zero_on_domain(space, &mut ctx).unwrap();
    let p1 = PiecewiseQuasiPolynomial::try_from(q1, &mut ctx).unwrap();
    let p2 = PiecewiseQuasiPolynomial::try_from(q2, &mut ctx).unwrap();
    let p = p1.add_disjoint(p2, &mut ctx).unwrap();
    let (visited, res) = p.foreach_lifted_piece(
        0usize,
        |n: usize,
         _poly: &QuasiPolynomial,
         _dom: &barvinok::sets::IslSet| (n + 1, Ok(())),
        &mut ctx,
    );
    res.unwrap();
    assert_eq!(visited, 2);
    assert!(!p.involves_nan().unwrap());
}

#[test]
fn piece_walk_balances_the_ledger() {
    let mut ctx = Context::new();
    let space = Space::set(&mut ctx, 0, 1).unwrap();
    let q = QuasiPolynomial::one_on_domain(space, &mut ctx).unwrap();
    let p = PiecewiseQuasiPolynomial::try_from(q, &mut ctx).unwrap();
    let live_before = ctx.live_count();
    let (visited, res) = p.foreach_piece(
        0usize,
        |n: usize,
         _poly: &QuasiPolynomial,
         _dom: &barvinok::sets::IslSet| (n + 1, Ok(())),
        &mut ctx,
    );
    res.unwrap();
    assert_eq!(visited, 1);
    assert_eq!(ctx.live_count(), live_before);
}

#[test]
fn every_piece_stops_at_first_false() {
    let mut ctx = Context::new();
    let space = Space::set(&mut ctx, 0, 1).unwrap();
    let q1 = QuasiPolynomial::one_on_domain(space.copy(&mut ctx), &mut ctx).unwrap();
    let q2 = QuasiPolynomial::zero_on_domain(space.copy(&mut ctx), &mut ctx).unwrap();
    let q3 = QuasiPolynomial::one_on_domain(space, &mut ctx).unwrap();
    let p1 = PiecewiseQuasiPolynomial::try_from(q1, &mut ctx).unwrap();
    let p2 = PiecewiseQuasiPolynomial::try_from(q2, &mut ctx).unwrap();
    let p3 = PiecewiseQuasiPolynomial::try_from(q3, &mut ctx).unwrap();
    let p = p1
        .add_disjoint(p2, &mut ctx)
        .unwrap()
        .add_disjoint(p3, &mut ctx)
        .unwrap();
    // the predicate rejects the second piece: the answer is false and the
    // third piece is never visited
    let (visited, res) = p.every_piece(
        0usize,
        |n: usize, poly: &QuasiPolynomial, _dom: &barvinok::sets::IslSet| {
            let keep = !poly.is_zero().unwrap();
            (n + 1, Ok(keep))
        },
        &mut ctx,
    );
    assert_eq!(res.unwrap(), false);
    assert_eq!(visited, 2);
    // a predicate that accepts everything answers true after all pieces
    let (visited_all, res_all) = p.every_piece(
        0usize,
        |n: usize, _poly: &QuasiPolynomial, _dom: &barvinok::sets::IslSet| (n + 1, Ok(true)),
        &mut ctx,
    );
    assert_eq!(res_all.unwrap(), true);
    assert_eq!(visited_all, 3);
}
