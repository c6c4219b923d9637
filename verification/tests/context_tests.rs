use barvinok::context::Context;
use barvinok::error::ISLErrorKind;
use barvinok::sets::BasicSet;
use barvinok::space::Space;
use barvinok::value::Value;

#[test]
fn it_creates_isl_context() {
    let ctx = Context::new();
    drop(ctx);
}

#[test]
fn fresh_context_has_no_pending_error() {
    let ctx = Context::new();
    assert!(ctx.last_error().is_none());
    let e = ctx.last_error_or_unknown();
    assert_eq!(e.kind(), ISLErrorKind::Unknown);
    assert_eq!(e.message(), "unknown error");
}

#[test]
fn injected_failure_reports_exact_kind() {
    // a stub failure that records a specific kind must surface exactly
    // that kind
    let mut ctx = Context::new();
    ctx.inject_failure(Some(ISLErrorKind::Internal));
    let r = Space::set(&mut ctx, 1, 2);
    let e = r.err().unwrap();
    assert_eq!(e.isl_kind(), Some(ISLErrorKind::Internal));
    // the slot still holds the failure for later reads
    assert_eq!(ctx.last_error().unwrap().kind(), ISLErrorKind::Internal);
}

#[test]
fn silent_failure_reports_unknown() {
    // a stub failure that records nothing must surface the Unknown
    // default
    let mut ctx = Context::new();
    ctx.inject_failure(None);
    let r = Space::set(&mut ctx, 1, 2);
    let e = r.err().unwrap();
    assert_eq!(e.isl_kind(), Some(ISLErrorKind::Unknown));
    assert!(ctx.last_error().is_none());
}

#[test]
fn quota_exhaustion_reports_quota() {
    let mut ctx = Context::new();
    ctx.set_max_operations(1);
    let s1 = Space::set(&mut ctx, 0, 1);
    assert!(s1.is_ok());
    let s2 = Space::set(&mut ctx, 0, 1);
    let e = s2.err().unwrap();
    assert_eq!(e.isl_kind(), Some(ISLErrorKind::Quota));
    // lifting the quota lets calls through again
    ctx.reset_operations();
    let s3 = Space::set(&mut ctx, 0, 1);
    assert!(s3.is_ok());
}

#[test]
fn failure_consumes_inputs_exactly_once() {
    // a failing consuming call still destroys its arguments, and only
    // once
    let mut ctx = Context::new();
    let space = Space::set(&mut ctx, 0, 2).unwrap();
    let a = BasicSet::universe(space, &mut ctx).unwrap();
    let space2 = Space::set(&mut ctx, 0, 2).unwrap();
    let b = BasicSet::universe(space2, &mut ctx).unwrap();
    let before = ctx.live_count();
    ctx.inject_failure(Some(ISLErrorKind::Abort));
    let r = a.intersect(b, &mut ctx);
    assert!(r.is_err());
    assert_eq!(ctx.live_count(), before - 2);
}

#[test]
fn exactly_once_free_across_copies() {
    // build via copy several times, free every owner, and hold the
    // instrumented ledger to an exact balance
    let mut ctx = Context::new();
    let v0 = Value::new_si(&mut ctx, 42);
    let v1 = v0.copy(&mut ctx);
    let v2 = v0.copy(&mut ctx);
    let v3 = v1.copy(&mut ctx);
    assert_eq!(ctx.alloc_count(), 4);
    assert_eq!(ctx.free_count(), 0);
    v0.free(&mut ctx);
    v1.free(&mut ctx);
    v2.free(&mut ctx);
    v3.free(&mut ctx);
    assert_eq!(ctx.alloc_count(), 4);
    assert_eq!(ctx.free_count(), 4);
    assert_eq!(ctx.live_count(), 0);
}

#[test]
fn scope_hands_out_the_context_reference() {
    let ctx = Context::new();
    let r1 = ctx.scope(|c| c);
    assert_eq!(r1, ctx.context_ref());
}
