use barvinok::context::Context;
use barvinok::ident::Ident;

#[test]
fn test_ident() {
    let mut ctx = Context::new();
    let ident = Ident::new(&mut ctx, "x").unwrap();
    assert_eq!(ident.name().unwrap(), "x");
    assert_eq!(ident.context_ref(), ctx.context_ref());
}

#[test]
fn test_ident_with_user() {
    let mut ctx = Context::new();
    let ident = Ident::new_with_user(&mut ctx, "x", 42).unwrap();
    assert_eq!(ident.name().unwrap(), "x");
    assert_eq!(ident.context_ref(), ctx.context_ref());
    assert_eq!(ident.get_user_ref(), Some(&42));
    assert_eq!(ident.get_user_as(), Some(&42));
}

#[test]
fn ident_copy_shares_the_payload() {
    let mut ctx = Context::new();
    let ident = Ident::new_with_user(&mut ctx, "x", 7).unwrap();
    let ident2 = ident.copy(&mut ctx);
    assert_eq!(ident2.get_user_as(), Some(&7));
    assert_eq!(ident2.name().unwrap(), "x");
    ident.free(&mut ctx);
    ident2.free(&mut ctx);
    assert_eq!(ctx.live_count(), 0);
}

#[test]
fn ident_nul_name_is_local_error() {
    let mut ctx = Context::new();
    let before = ctx.alloc_count();
    let r = Ident::new(&mut ctx, "x\u{0}y");
    assert!(matches!(r, Err(barvinok::error::Error::NulError)));
    assert_eq!(ctx.alloc_count(), before);
}
