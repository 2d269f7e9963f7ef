use jinspect::vector::{Vector, DEFAULT_CAPACITY};

#[test]
fn test_vector_iter() {
    let cap: usize = 10;
    let mut vec = Vector::<i32>::with_capacity(cap);
    for i in 0..cap {
        vec.push(i as i32);
    }

    let mut i = 0;
    let mut it = vec.iter();
    while let Some(item) = it.next() {
        assert_eq!(item, &i);
        i += 1;
    }
    assert_eq!(i, 10);
}

#[test]
fn test_vector_iter_mut() {
    let cap: usize = 10;
    let mut vec = Vector::<i32>::with_capacity(cap);
    for i in 0..cap {
        vec.push(i as i32);
    }

    let mut i = 0;
    let mut it = vec.iter_mut();
    while let Some(item) = it.next() {
        assert_eq!(item, &i);
        *item += 1;
        i += 1;
    }

    let mut i = 0;
    let mut it = vec.iter_mut();
    while let Some(item) = it.next() {
        assert_eq!(item, &(i + 1));
        i += 1;
    }
}

#[test]
fn test_vector_creation() {
    let vec = Vector::<i32>::new();
    assert_eq!(vec.capacity(), DEFAULT_CAPACITY);
    assert_eq!(vec.len(), 0);
    assert_eq!(vec.need_to_grow(), false);
}

#[test]
fn test_vector_creation_with_custom_capacity() {
    let capacity = 20;
    let other = Vector::<i32>::with_capacity(capacity);
    assert_eq!(other.capacity(), capacity);
    assert_eq!(other.len(), 0);
    assert_eq!(other.need_to_grow(), false);
}

#[test]
fn test_vector_get() {
    let mut vec = Vector::<i32>::new();
    assert_eq!(vec.get(0), None);
    assert_eq!(vec.get(10), None);
    assert_eq!(vec.len(), 0);
    vec.push(10);
    assert_eq!(vec.len(), 1);
    assert_eq!(vec.get(0), Some(&10));
    assert_eq!(vec.get(2), None);
}

#[test]
fn test_vector_reallocation() {
    let count = 10;
    let capacity: usize = 2;
    let mut vec: Vector<i32> = Vector::with_capacity(capacity);
    assert_eq!(vec.capacity(), capacity);
    for i in 0..count {
        let value = (i * count) as i32;
        vec.push(value);
        assert_eq!(vec.len(), i + 1);
        assert_eq!(vec.get(i), Some(&value));
    }
    assert_eq!(vec.capacity(), 16);
}

#[test]
fn test_vector_push() {
    let mut vec: Vector<i32> = Vector::new();
    assert_eq!(vec.capacity(), DEFAULT_CAPACITY);
    assert_eq!(vec.len(), 0);
    assert_eq!(vec.need_to_grow(), false);
    vec.push(10);
    assert_eq!(vec.len(), 1);
    assert_eq!(vec.need_to_grow(), false);
    assert_eq!(vec.peek(), Some(&10));
    vec.push(12);
    assert_eq!(vec.len(), 2);
    assert_eq!(vec.need_to_grow(), false);

    assert_eq!(vec.get(0), Some(&10));
    assert_eq!(vec.get(1), Some(&12));
    assert_eq!(vec.get(10), None);
}
