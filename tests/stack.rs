use algorithms::stack::{ArrayStack, STACK_OVERFLOW};

#[test]
fn new_stack_is_empty() {
    let s: ArrayStack<i32, 5> = ArrayStack::new();
    assert!(s.is_empty());
    assert_eq!(s.peek(), None);
}

#[test]
fn push_then_pop_in_reverse_order() {
    let mut s: ArrayStack<i32, 5> = ArrayStack::new();
    assert_eq!(s.push(10), Ok(()));
    assert_eq!(s.push(20), Ok(()));
    assert_eq!(s.push(30), Ok(()));
    assert_eq!(s.peek(), Some(30));
    assert_eq!(s.pop(), Some(30));
    assert_eq!(s.pop(), Some(20));
    assert_eq!(s.pop(), Some(10));
    assert!(s.is_empty());
}

#[test]
fn pop_on_empty_gives_none() {
    let mut s: ArrayStack<u8, 3> = ArrayStack::new();
    assert_eq!(s.pop(), None);
    assert!(s.is_empty());
}

#[test]
fn peek_leaves_item_in_place() {
    let mut s: ArrayStack<i32, 2> = ArrayStack::new();
    s.push(7).unwrap();
    assert_eq!(s.peek(), Some(7));
    assert_eq!(s.peek(), Some(7));
    assert!(!s.is_empty());
    assert_eq!(s.pop(), Some(7));
}

#[test]
fn push_past_capacity_overflows() {
    let mut s: ArrayStack<i32, 2> = ArrayStack::new();
    assert_eq!(s.push(1), Ok(()));
    assert_eq!(s.push(2), Ok(()));
    assert_eq!(s.push(3), Err("Stack Overflow"));
    assert_eq!(STACK_OVERFLOW, "Stack Overflow");
    assert_eq!(s.peek(), Some(2));
    assert_eq!(s.pop(), Some(2));
    assert_eq!(s.push(4), Ok(()));
    assert_eq!(s.peek(), Some(4));
}

#[test]
fn zero_capacity_stack_refuses_every_push() {
    let mut s: ArrayStack<i32, 0> = ArrayStack::new();
    assert_eq!(s.push(1), Err("Stack Overflow"));
    assert!(s.is_empty());
}
