use jinspect::basic_stack::Stack;

#[test]
fn lib_test_stack_creation() {
    let stack = Stack::<i32>::new();
    assert_eq!(stack.len(), 0);
    assert_eq!(stack.is_empty(), true);
}

#[test]
fn lib_test_stack_push() {
    let mut stack = Stack::<i32>::new();
    assert_eq!(stack.len(), 0);
    assert_eq!(stack.is_empty(), true);
    stack.push(1);
    assert_eq!(stack.len(), 1);
    assert_eq!(stack.is_empty(), false);
}

#[test]
fn lib_test_stack_pop() {
    let mut stack = Stack::<i32>::new();
    assert_eq!(stack.len(), 0);
    assert_eq!(stack.pop(), None);
    stack.push(1);
    assert_eq!(stack.len(), 1);
    assert_eq!(stack.pop(), Some(1));
    assert_eq!(stack.len(), 0);
    assert_eq!(stack.pop(), None);
}

#[test]
fn lib_test_stack_peek() {
    let mut stack = Stack::<i32>::new();
    assert_eq!(stack.len(), 0);
    assert_eq!(stack.peek(), None);

    stack.push(1);
    assert_eq!(stack.len(), 1);
    assert_eq!(stack.peek(), Some(&1));
    assert_eq!(stack.len(), 1);
}

#[test]
fn lib_test_stack_peek_mut() {
    let mut stack = Stack::<i32>::new();
    assert_eq!(stack.len(), 0);
    assert_eq!(stack.peek_mut(), None);

    stack.push(1);
    assert_eq!(stack.len(), 1);
    if let Some(item) = stack.peek_mut() {
        *item += 1;
    }
    assert_eq!(stack.peek(), Some(&2));
    assert_eq!(stack.len(), 1);
}
