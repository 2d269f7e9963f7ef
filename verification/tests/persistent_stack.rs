use jinspect::persistent_stack::PersistentStack;

#[test]
fn test_persistent_stack_creation() {
    let stack = PersistentStack::<i32>::new();
    assert_eq!(stack.len(), 0);
    assert_eq!(stack.is_empty(), true);
}

#[test]
fn test_persistent_stack_prepend() {
    let stack = PersistentStack::<i32>::new();
    assert_eq!(stack.len(), 0);
    assert_eq!(stack.is_empty(), true);
    let other = stack.prepend(1);
    assert_eq!(other.len(), 1);
    assert_eq!(other.is_empty(), false);
    assert_eq!(other.peek(), Some(&1));
    let other = other.prepend(2).prepend(3).prepend(4);
    assert_eq!(other.len(), 4);
    assert_eq!(other.is_empty(), false);
    assert_eq!(other.peek(), Some(&4));
}

#[test]
fn test_persistent_stack_tail() {
    let stack = PersistentStack::<i32>::new();
    assert_eq!(stack.len(), 0);
    assert_eq!(stack.is_empty(), true);
    let tail = stack.tail();
    assert_eq!(tail.len(), 0);
    assert_eq!(tail.is_empty(), true);
}

#[test]
fn test_persistent_stack_basics() {
    let list = PersistentStack::new();
    assert_eq!(list.peek(), None);

    let list = list.prepend(1).prepend(2).prepend(3);
    assert_eq!(list.peek(), Some(&3));

    let list = list.tail();
    assert_eq!(list.peek(), Some(&2));

    let list = list.tail();
    assert_eq!(list.peek(), Some(&1));

    let list = list.tail();
    assert_eq!(list.peek(), None);

    let list = list.tail();
    assert_eq!(list.peek(), None);
}

#[test]
fn test_persistent_stack_iter() {
    let list = PersistentStack::new().prepend(1).prepend(2).prepend(3);

    let mut iter = list.iter();
    assert_eq!(iter.next(), Some(&3));
    assert_eq!(iter.next(), Some(&2));
    assert_eq!(iter.next(), Some(&1));
    assert_eq!(iter.next(), None);
}
