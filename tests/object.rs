use mirage::object::bitmap::Bitmap;
use mirage::object::text::{Text, SIZE};
use mirage::object::{Line, Point, Rect, Translate};

#[test]
fn mod_line() {
    let mut l = Line::from_points(&[(2, 1).into(), (1, 1).into(), (5, 5).into()]);
    l.position((3, 4));
    assert_eq!(l.begin, Point::new(3, 4));
    assert_eq!(l.path(), vec![Point::new(3, 4), Point::new(2, 4), Point::new(6, 8)]);
}

#[test]
fn mod_rect() {
    let r = Rect::new((4, 5).into(), 3, 3);
    assert_eq!(r.point, Point::new(4, 5));
    assert_eq!((r.width, r.height), (3, 3));
}

#[test]
fn text() {
    let t = Text::new((1, 1).into(), "hello world");
    assert_eq!(t.point, Point::new(1, 1));
    assert_eq!(t.text, "hello world");
    assert_eq!(t.size, SIZE);
    assert_eq!(SIZE, 10);
}

#[test]
fn point_from_pair() {
    let p: Point = (2, 4).into();
    assert_eq!(p.x, 2);
    assert_eq!(p.y, 4);
}

#[test]
fn line_stores_relative_steps() {
    let l = Line::from_points(&[Point::new(2, 1), Point::new(1, 1), Point::new(5, 5)]);
    assert_eq!(l.begin, Point::new(2, 1));
    assert_eq!(l.path, vec![Point::new(-1, 0), Point::new(4, 4)]);
}

#[test]
fn line_round_trip_of_absolute_points() {
    let pts = [Point::new(0, 0), Point::new(7, -3), Point::new(7, 9), Point::new(-2, 4)];
    let l = Line::from_points(&pts);
    assert_eq!(l.path(), pts.to_vec());
    let single = Line::from_points(&[Point::new(5, 6)]);
    assert_eq!(single.path(), vec![Point::new(5, 6)]);
    assert!(single.path.is_empty());
}

#[test]
fn line_new_keeps_offsets() {
    let l = Line::new(Point::new(1, 1), vec![Point::new(2, 0), Point::new(0, 3)]);
    assert_eq!(l.path(), vec![Point::new(1, 1), Point::new(3, 1), Point::new(3, 4)]);
}

#[test]
fn translate_and_back_restores_point_line_rect() {
    let mut p = Point::new(3, -4);
    p.translate((10, 20));
    assert_eq!(p, Point::new(13, 16));
    p.translate((-10, -20));
    assert_eq!(p, Point::new(3, -4));

    let original = Line::from_points(&[Point::new(1, 2), Point::new(4, 6), Point::new(0, 0)]);
    let mut l = original.clone();
    l.translate((-7, 5));
    assert_eq!(l.path(), vec![Point::new(-6, 7), Point::new(-3, 11), Point::new(-7, 5)]);
    l.translate((7, -5));
    assert_eq!(l, original);

    let mut r = Rect::new(Point::new(4, 5), 3, 2);
    r.translate((1, 1));
    assert_eq!(r.point, Point::new(5, 6));
    r.translate((-1, -1));
    assert_eq!(r, Rect::new(Point::new(4, 5), 3, 2));
}

#[test]
fn translate_single_axis() {
    let mut r = Rect::new(Point::new(4, 5), 3, 2);
    r.translate_x(6);
    assert_eq!(r.point, Point::new(10, 5));
    r.translate_y(-9);
    assert_eq!(r.point, Point::new(10, -4));
    assert_eq!((r.width, r.height), (3, 2));
}

#[test]
fn position_sets_anchor_for_every_kind() {
    let mut p = Point::new(-8, 8);
    p.position((1, 2));
    assert_eq!(p.point(), Point::new(1, 2));

    let mut l = Line::from_points(&[Point::new(9, 9), Point::new(10, 12)]);
    l.position((1, 2));
    assert_eq!(l.point(), Point::new(1, 2));
    assert_eq!(l.path(), vec![Point::new(1, 2), Point::new(2, 5)]);

    let mut r = Rect::new(Point::new(50, 60), 5, 5);
    r.position((1, 2));
    assert_eq!(r.point(), Point::new(1, 2));

    let mut t = Text::new(Point::new(0, 0), "a");
    t.position((1, 2));
    assert_eq!(t.point(), Point::new(1, 2));
    assert_eq!(t.text, "a");

    let mut b = Bitmap::new(Point::new(3, 3), vec![1, 2, 3], 1, 1);
    b.position((1, 2));
    assert_eq!(b.point(), Point::new(1, 2));
    assert_eq!(b.data, vec![1, 2, 3]);
}

#[test]
fn set_max_raises_each_coordinate() {
    let mut p = Point::new(3, 9);
    p.set_max(&Point::new(5, 2));
    assert_eq!(p, Point::new(5, 9));
    p.set_max(&Point::new(-1, -1));
    assert_eq!(p, Point::new(5, 9));
}

#[test]
fn for_each_visits_the_anchor() {
    let l = Line::from_points(&[Point::new(2, 3), Point::new(8, 8)]);
    let seen = std::cell::Cell::new(Point::new(0, 0));
    l.for_each(|p| seen.set(*p));
    assert_eq!(seen.get(), Point::new(2, 3));
}

#[test]
fn for_each_mut_moves_the_anchor() {
    let mut l = Line::from_points(&[Point::new(2, 3), Point::new(8, 8)]);
    l.for_each_mut(|p| Point::new(p.x * 2, p.y - 3));
    assert_eq!(l.path(), vec![Point::new(4, 0), Point::new(10, 5)]);
}
