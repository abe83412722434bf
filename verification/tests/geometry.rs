//! Rectangle and object overlap behaviour.

use platformrs::object::Object;
use platformrs::rect::Rect;

#[test]
fn overlap_none_iff_no_overlap() {
    let a = Rect::new(0, 0, 10, 10);
    let b = Rect::new(20, 0, 10, 10);
    assert!(!a.has_overlap(&b));
    assert!(a.overlap(&b).is_none());

    let c = Rect::new(5, 5, 10, 10);
    assert!(a.has_overlap(&c));
    assert!(a.overlap(&c).is_some());
}

#[test]
fn touching_edges_count_as_overlap_with_zero_area() {
    let a = Rect::new(0, 0, 10, 10);
    let b = Rect::new(10, 0, 10, 10);
    assert!(a.has_overlap(&b));
    let o = a.overlap(&b).unwrap();
    assert_eq!(o.x, 10);
    assert_eq!(o.y, 0);
    assert_eq!(o.width, 0);
    assert_eq!(o.height, 10);
}

#[test]
fn overlap_is_the_intersection() {
    let a = Rect::new(0, 0, 10, 10);
    let c = Rect::new(5, 5, 10, 10);
    let o = a.overlap(&c).unwrap();
    assert_eq!((o.x, o.y, o.width, o.height), (5, 5, 5, 5));
}

#[test]
fn overlap_contained_in_both_and_area_bounded() {
    let a = Rect::new(-3, -3, 9, 8);
    let b = Rect::new(2, -1, 30, 2);
    let o = a.overlap(&b).unwrap();
    // Contained in both.
    for r in [&a, &b] {
        assert!(r.x <= o.x);
        assert!(r.y <= o.y);
        assert!(o.x + o.width <= r.x + r.width);
        assert!(o.y + o.height <= r.y + r.height);
    }
    // Area at most either area.
    assert!(o.width * o.height <= a.width * a.height);
    assert!(o.width * o.height <= b.width * b.height);
}

#[test]
fn overlap_symmetric_in_test() {
    let a = Rect::new(0, 0, 10, 10);
    let b = Rect::new(-5, -5, 7, 7);
    assert_eq!(a.has_overlap(&b), b.has_overlap(&a));
    assert!(a.has_overlap(&b));
}

#[test]
fn rect_builders() {
    let r = Rect::new(1, 2, 3, 4).size(7, 8);
    assert_eq!((r.x, r.y, r.width, r.height), (1, 2, 7, 8));
    let p = Rect::from_point((9, 10));
    assert_eq!((p.x, p.y, p.width, p.height), (9, 10, 0, 0));
    assert_eq!(r.point(), (1, 2));
    assert_eq!(r.bottom_right(), (8, 10));
}

#[test]
fn coordinates_saturate_instead_of_overflowing() {
    // A rectangle pushed against the numeric edge of the world: its
    // far edges saturate rather than wrap, and the overlap test stays
    // total.
    let a = Rect::new(i64::MAX - 5, 0, 100, 100);
    assert_eq!(a.bottom_right().0, i64::MAX);
    let far_left = Rect::new(i64::MIN, 0, 10, 10);
    assert!(!a.has_overlap(&far_left));

    let mut o = platformrs::object::Object::with_size(10, 10).at(i64::MAX - 5, 0);
    o.move_by(100, 0);
    assert_eq!(o.rect.x, i64::MAX);
    o.move_by(-100, 0);
    assert_eq!(o.rect.x, i64::MAX - 100);
}

#[test]
fn non_solid_objects_never_overlap() {
    let a = Object::with_size(10, 10).at(0, 0);
    let ghostly = Object::with_size(10, 10).at(5, 5).collision(false);
    assert!(a.overlap(&ghostly).is_none());
    assert!(ghostly.overlap(&a).is_none());

    let solid = Object::with_size(10, 10).at(5, 5);
    let o = a.overlap(&solid).unwrap();
    assert_eq!((o.x, o.y, o.width, o.height), (5, 5, 5, 5));
}

#[test]
fn object_move_by_translates() {
    let mut a = Object::with_size(4, 4).at(10, 20);
    a.move_by(-3, 7);
    assert_eq!((a.rect.x, a.rect.y), (7, 27));
    assert_eq!((a.rect.width, a.rect.height), (4, 4));
}

#[test]
fn object_defaults_are_visible_and_solid() {
    let d = Object::default();
    assert!(d.visible);
    assert!(d.is_solid);
    assert_eq!((d.rect.width, d.rect.height), (0, 0));
}
