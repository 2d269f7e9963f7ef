use jinspect::stack::Stack;

#[test]
fn stack_test_stack_creation() {
    let stack = Stack::<i32>::new();
    assert_eq!(stack.len(), 0);
    assert_eq!(stack.is_empty(), true);
}

#[test]
fn stack_test_stack_push() {
    let mut stack = Stack::<i32>::new();
    assert_eq!(stack.len(), 0);
    assert_eq!(stack.is_empty(), true);
    stack.push(1);
    assert_eq!(stack.len(), 1);
    assert_eq!(stack.is_empty(), false);
}

#[test]
fn stack_test_stack_pop() {
    let mut stack = Stack::<i32>::new();
    assert_eq!(stack.len(), 0);
    assert_eq!(stack.pop(), None);
    stack.push(1);
    assert_eq!(stack.len(), 1);
    assert_eq!(stack.pop(), Some(1));
    assert_eq!(stack.len(), 0);
    assert_eq!(stack.pop(), None);
}

#[test]
fn stack_test_stack_peek() {
    let mut stack = Stack::<i32>::new();
    assert_eq!(stack.len(), 0);
    assert_eq!(stack.peek(), None);

    stack.push(1);
    assert_eq!(stack.len(), 1);
    assert_eq!(stack.peek(), Some(&1));
    assert_eq!(stack.len(), 1);
}

#[test]
fn stack_test_stack_peek_mut() {
    let mut stack = Stack::<i32>::new();
    assert_eq!(stack.len(), 0);
    assert_eq!(stack.peek_mut(), None);

    stack.push(1);
    assert_eq!(stack.len(), 1);
    if let Some(item) = stack.peek_mut() {
        *item += 1;
    }
    assert_eq!(stack.peek(), Some(&2));
    assert_eq!(stack.len(), 1);
}

#[test]
fn test_stack_into_iter() {
    let mut stack = Stack::<i32>::new();
    assert_eq!(stack.len(), 0);
    assert_eq!(stack.peek_mut(), None);
    stack.push(1);
    stack.push(2);
    stack.push(3);
    stack.push(4);
    stack.push(5);

    let mut iterator = stack.into_iter();
    assert_eq!(iterator.next(), Some(5));
    assert_eq!(iterator.next(), Some(4));
    assert_eq!(iterator.next(), Some(3));
    assert_eq!(iterator.next(), Some(2));
    assert_eq!(iterator.next(), Some(1));
    assert_eq!(iterator.next(), None);
}

#[test]
fn test_stack_iter() {
    let mut stack = Stack::<i32>::new();
    assert_eq!(stack.len(), 0);
    assert_eq!(stack.peek_mut(), None);
    stack.push(1);
    stack.push(2);
    stack.push(3);
    stack.push(4);
    stack.push(5);

    let mut iterator = stack.iter();
    assert_eq!(iterator.next(), Some(&5));
    assert_eq!(iterator.next(), Some(&4));
    assert_eq!(iterator.next(), Some(&3));
    assert_eq!(iterator.next(), Some(&2));
    assert_eq!(iterator.next(), Some(&1));
    assert_eq!(iterator.next(), None);
}

#[test]
fn test_stack_iter_mut() {
    let mut stack = Stack::<i32>::new();
    assert_eq!(stack.len(), 0);
    assert_eq!(stack.peek_mut(), None);
    stack.push(1);
    stack.push(2);
    stack.push(3);
    stack.push(4);
    stack.push(5);

    let mut writer = stack.iter_mut();
    while let Some(item) = writer.next() {
        *item = 10;
    }

    let mut reader = stack.iter();
    while let Some(item) = reader.next() {
        assert_eq!(item, &10);
    }
}
