use mirage::object::text::Text;
use mirage::object::{Line, Point, Rect};
use mirage::surface::{Group, Meta, Object, PositionType, Primitive, Surface};

fn prim(p: Primitive) -> Object {
    Object::Primitive(p)
}

#[test]
fn surface_test() {
    let s = Surface::new(vec![
        prim(Primitive::Point((4, 6).into())),
        prim(Primitive::Text(Text::new((0, 2).into(), "font"))),
    ]);
    // "font" is 4 bytes at font size 10, one standard line down from y = 2.
    assert_eq!(s.dimension(), (40, 12));
}

#[test]
fn dimension_of_empty_surface() {
    let s = Surface::new(Vec::new());
    assert_eq!(s.dimension(), (0, 0));
}

#[test]
fn dimension_of_single_rect() {
    let s = Surface::new(vec![prim(Primitive::Rect(Rect::new(Point::new(10, 10), 5, 5)))]);
    assert_eq!(s.dimension(), (15, 15));
}

#[test]
fn dimension_is_componentwise_maximum() {
    let s = Surface::new(vec![
        prim(Primitive::Point(Point::new(100, 1))),
        prim(Primitive::Line(Line::from_points(&[Point::new(0, 0), Point::new(3, 70), Point::new(2, 1)]))),
        prim(Primitive::Point(Point::new(-5, -5))),
    ]);
    assert_eq!(s.dimension(), (100, 70));
}

#[test]
fn dimension_skips_groups() {
    let g = Group::new(vec![prim(Primitive::Point(Point::new(500, 500)))]);
    let s = Surface::new(vec![Object::Group(g), prim(Primitive::Point(Point::new(2, 3)))]);
    assert_eq!(s.dimension(), (2, 3));
}

#[test]
fn meta_and_group_start_at_origin() {
    let m = Meta::new();
    assert_eq!(m.pos, (0, 0));
    assert_eq!(m.postype, PositionType::Abs);
    let g = Group::new(Vec::new());
    assert_eq!(g.meta, m);
    assert!(g.objects.is_empty());
}

#[test]
fn translate_and_position_reach_top_level_primitives_only() {
    let g = Group::new(vec![prim(Primitive::Point(Point::new(1, 1)))]);
    let mut s = Surface::new(vec![
        prim(Primitive::Point(Point::new(1, 1))),
        Object::Group(g),
        prim(Primitive::Rect(Rect::new(Point::new(2, 2), 4, 4))),
    ]);
    s.translate((10, 20));
    let objs = s.objects();
    assert_eq!(objs[0], prim(Primitive::Point(Point::new(11, 21))));
    assert_eq!(objs[1], Object::Group(Group::new(vec![prim(Primitive::Point(Point::new(1, 1)))])));
    assert_eq!(objs[2], prim(Primitive::Rect(Rect::new(Point::new(12, 22), 4, 4))));

    s.position((0, 0));
    let objs = s.objects();
    assert_eq!(objs[0], prim(Primitive::Point(Point::new(0, 0))));
    assert_eq!(objs[2], prim(Primitive::Rect(Rect::new(Point::new(0, 0), 4, 4))));
}

#[test]
fn append_moves_objects_in_order() {
    let mut a = Surface::new(vec![prim(Primitive::Point(Point::new(1, 1)))]);
    let mut b = Surface::new(vec![
        prim(Primitive::Point(Point::new(2, 2))),
        prim(Primitive::Point(Point::new(3, 3))),
    ]);
    a.append(&mut b);
    assert!(b.objects().is_empty());
    let pts: Vec<Object> = vec![
        prim(Primitive::Point(Point::new(1, 1))),
        prim(Primitive::Point(Point::new(2, 2))),
        prim(Primitive::Point(Point::new(3, 3))),
    ];
    assert_eq!(a.objects(), &pts);
}

#[test]
fn for_each_visits_objects_in_order() {
    let s = Surface::new(vec![
        prim(Primitive::Point(Point::new(1, 1))),
        prim(Primitive::Point(Point::new(2, 2))),
    ]);
    let seen = std::cell::RefCell::new(Vec::new());
    s.for_each(|o| seen.borrow_mut().push(o.clone_point()));
    assert_eq!(seen.into_inner(), vec![Some(Point::new(1, 1)), Some(Point::new(2, 2))]);
    let mut count = 0;
    s.for_each_mut(|_| count += 1);
    assert_eq!(count, 2);
}

trait AsPoint {
    fn clone_point(&self) -> Option<Point>;
}

impl AsPoint for Object {
    fn clone_point(&self) -> Option<Point> {
        match self {
            Object::Primitive(Primitive::Point(p)) => Some(*p),
            _ => None,
        }
    }
}
