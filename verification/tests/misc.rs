use jinspect::ring::ring_step;
use jinspect::sketch::{full_name, get_largest_string, Point};

#[test]
fn largest_string_prefers_the_longer_and_ties_go_second() {
    assert_eq!(get_largest_string("selam", "selami"), "selami");
    let s2 = " lkajsdlfkj jlaksdjflkajdflks";
    assert_eq!(get_largest_string("selami", s2), s2);
    assert_eq!(get_largest_string("ab", "cd"), "cd");
    assert_eq!(get_largest_string("abc", "cd"), "abc");
}

#[test]
fn full_name_joins_with_one_space() {
    assert_eq!(full_name("John", "Doe"), "John Doe");
}

#[test]
fn point_holds_its_coordinates() {
    let p = Point { x: 12, y: -3 };
    assert_eq!(p.x, 12);
    assert_eq!(p.y, -3);
    assert_eq!(p, Point { x: 12, y: -3 });
}

#[test]
fn ring_cursor_wraps_and_pushes_the_tail() {
    // Plain advance.
    assert_eq!(ring_step(0, 3, 8), (1, 3));
    // Wraparound at the capacity.
    assert_eq!(ring_step(7, 3, 8), (0, 3));
    // The head catches the tail, which is pushed ahead.
    assert_eq!(ring_step(2, 3, 8), (3, 4));
    // Full wrap with capacity one.
    assert_eq!(ring_step(0, 0, 1), (0, 0));
}
