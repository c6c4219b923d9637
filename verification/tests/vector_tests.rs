use barvinok::context::Context;
use barvinok::printer::Printer;
use barvinok::vector::Vector;

#[test]
fn test_vector_creation() {
    let mut ctx = Context::new();
    let vector = Vector::new(&mut ctx, 5);
    assert_eq!(vector.size(), Some(5));
}

#[test]
fn test_get_as_val() {
    let mut ctx = Context::new();
    let vector = Vector::new(&mut ctx, 5);
    let val = vector.get(10, &mut ctx);
    assert!(val.is_none());
    let val = vector.get(0, &mut ctx).unwrap();
    assert!(val.is_zero().unwrap());
}

#[test]
fn test_set_si() {
    let mut ctx = Context::new();
    let mut vector = Vector::new(&mut ctx, 5);
    vector = vector.set_si(0, 10, &mut ctx).unwrap();
    let val = vector.get(0, &mut ctx).unwrap();
    assert_eq!(val.numerator(), 10);
    assert!(vector.set_si(99, 20, &mut ctx).is_none());
}

#[test]
fn printer_accumulates_text() {
    let mut ctx = Context::new();
    let mut p = Printer::new(&mut ctx).unwrap();
    p.print_str("a := ", &mut ctx);
    p.print_str("42;", &mut ctx);
    assert_eq!(p.as_ptr().as_slice(), "a := 42;".as_bytes());
    p.free(&mut ctx);
    assert_eq!(ctx.live_count(), 0);
}
