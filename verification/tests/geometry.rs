//! Tests of the rectangle helpers.

use tmux_domain::Rect;
use tmux_domain::value_in_range;

#[test]
fn value_in_range_is_a_closed_interval() {
    assert!(value_in_range(5, 5, 10));
    assert!(value_in_range(10, 5, 10));
    assert!(value_in_range(7, 5, 10));
    assert!(!value_in_range(4, 5, 10));
    assert!(!value_in_range(11, 5, 10));
}

#[test]
fn edges_are_corner_plus_extent() {
    let r = Rect { x: 3, y: 4, width: 10, height: 20 };
    assert_eq!(r.right(), 13);
    assert_eq!(r.bottom(), 24);
}

#[test]
fn enclosing_boundary_covers_both_rectangles() {
    let a = Rect { x: 0, y: 0, width: 4, height: 4 };
    let b = Rect { x: 2, y: 3, width: 8, height: 2 };
    let e = a.enclosing_boundary_with(&b);
    assert_eq!(e, Rect { x: 0, y: 0, width: 10, height: 5 });
}

#[test]
fn enclosing_boundary_of_nested_rectangles_is_the_outer_one() {
    let outer = Rect { x: 1, y: 1, width: 10, height: 10 };
    let inner = Rect { x: 3, y: 3, width: 2, height: 2 };
    assert_eq!(outer.enclosing_boundary_with(&inner), outer);
}

#[test]
fn overlapping_rectangles_intersect() {
    let a = Rect { x: 0, y: 0, width: 4, height: 4 };
    let b = Rect { x: 2, y: 2, width: 4, height: 4 };
    assert!(a.intersects_with(&b));
    assert!(b.intersects_with(&a));
}

#[test]
fn rectangles_far_apart_do_not_intersect() {
    let a = Rect { x: 0, y: 0, width: 2, height: 2 };
    let b = Rect { x: 10, y: 10, width: 2, height: 2 };
    assert!(!a.intersects_with(&b));
}

#[test]
fn rectangles_overlapping_on_one_axis_only_do_not_intersect() {
    let a = Rect { x: 0, y: 10, width: 2, height: 2 };
    let b = Rect { x: 0, y: 0, width: 5, height: 5 };
    assert!(!a.intersects_with(&b));
    assert!(!b.intersects_with(&a));
}

#[test]
fn intersection_is_symmetric_and_reflexive() {
    let a = Rect { x: 1, y: 2, width: 6, height: 3 };
    let b = Rect { x: 5, y: 4, width: 6, height: 3 };
    assert_eq!(a.intersects_with(&b), b.intersects_with(&a));
    assert!(a.intersects_with(&a));
}

#[test]
fn touching_edges_count_as_intersecting() {
    let a = Rect { x: 0, y: 0, width: 2, height: 2 };
    let b = Rect { x: 2, y: 2, width: 2, height: 2 };
    assert!(a.intersects_with(&b));
    assert!(b.intersects_with(&a));
}
