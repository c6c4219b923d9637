use barvinok::context::Context;
use barvinok::list::List;
use barvinok::value::Value;

#[test]
fn test_list_creation_and_push() {
    let mut ctx = Context::new();
    let mut list: List<Value> = List::new(&mut ctx, 10);
    assert_eq!(list.len(), 0);
    let val = Value::new_ui(&mut ctx, 42);
    let sum = val.copy(&mut ctx).checked_add(val.copy(&mut ctx), &mut ctx).unwrap();
    let prod = val.copy(&mut ctx).checked_mul(val.copy(&mut ctx), &mut ctx).unwrap();
    list.push(sum, &mut ctx);
    list.push(prod, &mut ctx);
    list.push(val, &mut ctx);
    assert_eq!(list.len(), 3);
    list.dump();
}

#[test]
fn test_list_get() {
    let mut ctx = Context::new();
    let mut list: List<Value> = List::new(&mut ctx, 10);
    let val1 = Value::new_ui(&mut ctx, 42);
    let val2 = Value::new_ui(&mut ctx, 43);
    list.push(val1.copy(&mut ctx), &mut ctx);
    list.push(val2.copy(&mut ctx), &mut ctx);
    assert!(list.get(0, &mut ctx).unwrap() == val1);
    assert!(list.get(1, &mut ctx).unwrap() == val2);
    assert!(list.get(2, &mut ctx).is_none());
}

#[test]
fn test_list_set() {
    let mut ctx = Context::new();
    let mut list: List<Value> = List::new(&mut ctx, 10);
    let val1 = Value::new_ui(&mut ctx, 42);
    let val2 = Value::new_ui(&mut ctx, 43);
    list.push(val1.copy(&mut ctx), &mut ctx);
    list.push(val2.copy(&mut ctx), &mut ctx);
    assert!(list.get(0, &mut ctx).unwrap() == val1);
    assert!(list.get(1, &mut ctx).unwrap() == val2);
    let val3 = Value::new_ui(&mut ctx, 44);
    list.set(0, val3.copy(&mut ctx), &mut ctx);
    assert!(list.get(0, &mut ctx).unwrap() == val3);
}

#[test]
fn test_dump_empty_list() {
    let mut ctx = Context::new();
    let val_list: List<Value> = List::new(&mut ctx, 9);
    val_list.dump();
    assert!(val_list.is_empty());
}

#[test]
fn test_add_to_list() {
    let mut ctx = Context::new();
    let mut val_list: List<Value> = List::new(&mut ctx, 9);
    let val1 = Value::new_si(&mut ctx, 42);
    let val2 = Value::new_si(&mut ctx, 7);
    val_list.push(val1, &mut ctx);
    val_list.push(val2, &mut ctx);
    assert_eq!(val_list.len(), 2);
}

#[test]
fn collection_semantics_scenario() {
    // an empty collection, two pushes, reads in order, one read past the
    // end
    let mut ctx = Context::new();
    let mut list: List<Value> = List::new(&mut ctx, 0);
    let a = Value::new_si(&mut ctx, 5);
    let b = Value::new_si(&mut ctx, 9);
    list.push(a.copy(&mut ctx), &mut ctx);
    list.push(b.copy(&mut ctx), &mut ctx);
    assert!(list.get(0, &mut ctx).unwrap() == a);
    assert!(list.get(1, &mut ctx).unwrap() == b);
    assert!(list.get(2, &mut ctx).is_none());
    assert_eq!(list.len(), 2);
}

#[test]
fn list_free_destroys_elements_exactly_once() {
    let mut ctx = Context::new();
    let mut list: List<Value> = List::new(&mut ctx, 4);
    let a = Value::new_si(&mut ctx, 1);
    let b = Value::new_si(&mut ctx, 2);
    list.push(a, &mut ctx);
    list.push(b, &mut ctx);
    // the array was reallocated once per push: four objects live (two
    // elements, the array, and nothing else)
    assert_eq!(ctx.live_count(), 3);
    list.free(&mut ctx);
    assert_eq!(ctx.live_count(), 0);
    assert_eq!(ctx.alloc_count(), ctx.free_count());
}

#[test]
fn test_list_singleton() {
    let mut ctx = Context::new();
    let a = Value::new_si(&mut ctx, 3);
    let probe = a.copy(&mut ctx);
    let list = List::new_singleton(a, &mut ctx);
    assert_eq!(list.len(), 1);
    assert!(list.get(0, &mut ctx).unwrap() == probe);
}
