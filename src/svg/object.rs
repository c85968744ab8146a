//! Map the shape elements of an SVG document onto primitives.
use crate::object::text::{Text, SIZE};
use crate::object::{in_isize, Line, Point, Rect};
use crate::surface::{Object, Primitive, Surface};
use crate::svg::shape;
use crate::svg::shape::Shape;
use crate::svg::Svg;
use vstd::prelude::*;

verus! {

/// A line element whose two ends coincide: it is dropped.
pub open spec fn degenerate(l: shape::Line) -> bool {
    l.x1 == l.x2 && l.y1 == l.y2
}

/// A line element one step apart on both axes: it becomes a point.
pub open spec fn unit_diagonal(l: shape::Line) -> bool {
    (l.x1 - l.x2 == 1 || l.x1 - l.x2 == -1) && (l.y1 - l.y2 == 1 || l.y1 - l.y2 == -1)
}

/// The step from one end of a line element to the other fits in a `Point`.
pub open spec fn line_fits(l: shape::Line) -> bool {
    in_isize(l.x2 - l.x1) && in_isize(l.y2 - l.y1)
}

/// Every line element of the document can be mapped.
pub open spec fn shapes_fit(shapes: Seq<Shape>) -> bool {
    forall|i: int| 0 <= i < shapes.len() ==> (#[trigger] shapes[i] matches Shape::Line(l) ==> line_fits(l))
}

/// The shapes that map onto a primitive, in order: all but the degenerate
/// lines.
pub open spec fn kept(shapes: Seq<Shape>) -> Seq<Shape>
    decreases shapes.len(),
{
    if shapes.len() == 0 {
        Seq::empty()
    } else {
        let before = kept(shapes.drop_last());
        match shapes.last() {
            Shape::Line(l) => if degenerate(l) { before } else { before.push(shapes.last()) },
            _ => before.push(shapes.last()),
        }
    }
}

/// `p` is the primitive that the shape element `s` maps onto.
///
/// A unit-diagonal line becomes a point at its start; any other line a
/// line from its start to its end; a rectangle keeps its size, with a
/// missing `x` or `y` taken as 0; a text keeps its position and content,
/// in the standard font size.
pub open spec fn maps_to(s: Shape, p: Primitive) -> bool {
    match s {
        Shape::Line(l) => if unit_diagonal(l) {
            p == Primitive::Point(Point { x: l.x1, y: l.y1 })
        } else {
            p matches Primitive::Line(m) && m.begin == (Point { x: l.x1, y: l.y1 }) && m.path@ == seq![
                Point { x: (l.x2 - l.x1) as isize, y: (l.y2 - l.y1) as isize },
            ]
        },
        Shape::Rect(r) => p == Primitive::Rect(
            Rect {
                point: Point {
                    x: match r.x {
                        Some(x) => x,
                        None => 0,
                    },
                    y: match r.y {
                        Some(y) => y,
                        None => 0,
                    },
                },
                width: r.width,
                height: r.height,
            },
        ),
        Shape::Text(t) => p matches Primitive::Text(u) && u.point == (Point { x: t.x, y: t.y })
            && u.text@ == t.text@ && u.size == SIZE,
    }
}

/// The objects are, in order, the primitives that the kept shapes map onto.
pub open spec fn mapped(shapes: Seq<Shape>, objs: Seq<Object>) -> bool {
    &&& objs.len() == kept(shapes).len()
    &&& forall|i: int|
        0 <= i < objs.len() ==> (#[trigger] objs[i] matches Object::Primitive(p) && maps_to(
            kept(shapes)[i],
            p,
        ))
}

/// The point at the start of a line element.
fn point(l: &shape::Line) -> (r: Point)
    ensures
        r == (Point { x: l.x1, y: l.y1 }),
{
    Point::new(l.x1, l.y1)
}

/// The line from the start of a line element to its end.
fn line(l: &shape::Line) -> (r: Line)
    requires
        line_fits(*l),
    ensures
        r.begin == (Point { x: l.x1, y: l.y1 }),
        r.path@ == seq![Point { x: (l.x2 - l.x1) as isize, y: (l.y2 - l.y1) as isize }],
{
    let ends = [Point::new(l.x1, l.y1), Point::new(l.x2, l.y2)];
    let r = Line::from_points(&ends);
    assert(r.path@ =~= seq![Point { x: (l.x2 - l.x1) as isize, y: (l.y2 - l.y1) as isize }]);
    r
}

/// The rectangle of a rect element, a missing `x` or `y` taken as 0.
fn rect(r: &shape::Rect) -> (o: Rect)
    ensures
        Primitive::Rect(o) == Primitive::Rect(
            Rect {
                point: Point {
                    x: match r.x {
                        Some(x) => x,
                        None => 0,
                    },
                    y: match r.y {
                        Some(y) => y,
                        None => 0,
                    },
                },
                width: r.width,
                height: r.height,
            },
        ),
{
    let p = match (r.x, r.y) {
        (None, None) => Point::new(0, 0),
        (Some(x), None) => Point::new(x, 0),
        (None, Some(y)) => Point::new(0, y),
        (Some(x), Some(y)) => Point::new(x, y),
    };
    Rect::new(p, r.width, r.height)
}

/// The text of a text element.
fn text(t: &shape::Text) -> (r: Text)
    ensures
        r.point == (Point { x: t.x, y: t.y }),
        r.text@ == t.text@,
        r.size == SIZE,
{
    Text::new(Point::new(t.x, t.y), t.text.as_str())
}

/// Map every shape element of the document onto a primitive, in order.
///
/// A line whose two ends coincide is dropped; one whose ends are one step
/// apart on both axes becomes a point at its start; any other line becomes
/// a two-point line. Rectangles and texts map directly.
pub fn svg(s: &Svg) -> (r: Surface)
    requires
        shapes_fit(s.shapes@),
    ensures
        mapped(s.shapes@, r@),
{
    let mut v: Vec<Object> = Vec::new();
    let n = s.shapes.len();
    let mut i: usize = 0;
    while i < n
        invariant
            n == s.shapes@.len(),
            i <= n,
            shapes_fit(s.shapes@),
            mapped(s.shapes@.take(i as int), v@),
        decreases n - i,
    {
        let ghost before = v@;
        proof {
            assert(s.shapes@.take(i + 1).drop_last() =~= s.shapes@.take(i as int));
            assert(s.shapes@.take(i + 1).last() == s.shapes@[i as int]);
        }
        match &s.shapes[i] {
            Shape::Line(l) => {
                if l.x1 == l.x2 && l.y1 == l.y2 {
                } else if ((l.x1 as i128 - l.x2 as i128) == 1 || (l.x1 as i128 - l.x2 as i128) == -1)
                    && ((l.y1 as i128 - l.y2 as i128) == 1 || (l.y1 as i128 - l.y2 as i128) == -1) {
                    v.push(Object::Primitive(Primitive::Point(point(l))));
                } else {
                    assert(s.shapes@[i as int] matches Shape::Line(l));
                    v.push(Object::Primitive(Primitive::Line(line(l))));
                }
            },
            Shape::Rect(r) => {
                v.push(Object::Primitive(Primitive::Rect(rect(r))));
            },
            Shape::Text(t) => {
                v.push(Object::Primitive(Primitive::Text(text(t))));
            },
        }
        proof {
            let k = kept(s.shapes@.take(i + 1));
            assert forall|j: int| 0 <= j < v@.len() implies (#[trigger] v@[j] matches Object::Primitive(p)
                && maps_to(k[j], p)) by {
                if j < before.len() {
                    assert(v@[j] == before[j]);
                }
            }
        }
        i += 1;
    }
    assert(s.shapes@.take(n as int) =~= s.shapes@);
    Surface::new(v)
}

/// Whether every line element of the document can be mapped.
pub fn fits(s: &Svg) -> (r: bool)
    ensures
        r == shapes_fit(s.shapes@),
{
    let n = s.shapes.len();
    let mut i: usize = 0;
    while i < n
        invariant
            n == s.shapes@.len(),
            i <= n,
            forall|j: int| 0 <= j < i ==> (#[trigger] s.shapes@[j] matches Shape::Line(l) ==> line_fits(l)),
        decreases n - i,
    {
        if let Shape::Line(l) = &s.shapes[i] {
            let dx = l.x2 as i128 - l.x1 as i128;
            let dy = l.y2 as i128 - l.y1 as i128;
            if dx < isize::MIN as i128 || dx > isize::MAX as i128 || dy < isize::MIN as i128 || dy > isize::MAX as i128 {
                assert(s.shapes@[i as int] matches Shape::Line(l));
                return false;
            }
        }
        i += 1;
    }
    true
}

} // verus!
