//! Vector graphics type primitives
use vstd::prelude::*;

pub mod bitmap;
/// Contains objects for the creation
/// of graphical text
pub mod text;

verus! {

/// True when `v` can be held by an `isize`.
pub open spec fn in_isize(v: int) -> bool {
    isize::MIN <= v <= isize::MAX
}

/// A Point is a simple object that
/// represents a single location
#[derive(Debug, Copy, Clone, PartialEq, Eq, Hash, Structural)]
pub struct Point {
    /// The x coordinate
    pub x: isize,
    /// The y coordinate
    pub y: isize,
}

/// The point `p` moved by `(dx, dy)`; the sums must fit in an `isize`.
pub open spec fn shifted(p: Point, dx: int, dy: int) -> Point {
    Point { x: (p.x + dx) as isize, y: (p.y + dy) as isize }
}

/// The point `p` moved by `(dx, dy)` stays within the range of `isize`.
pub open spec fn shift_fits(p: Point, dx: int, dy: int) -> bool {
    in_isize(p.x + dx) && in_isize(p.y + dy)
}

/// Perform a translation on an object by moving its anchor point.
///
/// Every shape is defined relative to a single anchor: a point is its own
/// anchor, a line its first point (the rest of its path is relative),
/// a rectangle or a text its origin. Moving the anchor carries the
/// whole shape along.
pub trait Translate: Sized {
    /// The anchor point of the shape.
    spec fn anchor(&self) -> Point;

    /// The same shape with its anchor moved to `p`.
    spec fn with_anchor(&self, p: Point) -> Self;

    /// Moving the anchor places it exactly, replaces any earlier move,
    /// and moving it to where it already is changes nothing.
    proof fn lemma_with_anchor(&self, p: Point, q: Point)
        ensures
            self.with_anchor(p).anchor() == p,
            self.with_anchor(p).with_anchor(q) == self.with_anchor(q),
            self.with_anchor(self.anchor()) == *self,
    ;

    /// The anchor point.
    fn point(&self) -> (r: Point)
        ensures
            r == self.anchor(),
    ;

    /// Move the anchor to `p`, carrying the shape along.
    fn set_point(&mut self, p: Point)
        ensures
            *final(self) == old(self).with_anchor(p),
    ;

    /// Call `func` on each point that defines the shape: its anchor.
    fn for_each<F: Fn(&Point)>(&self, func: F)
        requires
            call_requires(func, (&self.anchor(),)),
    {
        let p = self.point();
        func(&p);
    }

    /// Replace each point that defines the shape, its anchor, by what
    /// `func` makes of it, carrying the shape along.
    fn for_each_mut<F: FnMut(Point) -> Point>(&mut self, mut func: F)
        requires
            call_requires(func, (old(self).anchor(),)),
        ensures
            exists|q: Point|
                call_ensures(func, (old(self).anchor(),), q) && *final(self) == old(self).with_anchor(q),
    {
        let p = self.point();
        let q = func(p);
        self.set_point(q);
    }

    /// Move the shape so that its anchor stands at `pos`: the same as
    /// translating it by the difference between `pos` and its anchor, for
    /// any anchor, with no intermediate sum to overflow.
    fn position(&mut self, pos: (isize, isize))
        ensures
            *final(self) == old(self).with_anchor(Point { x: pos.0, y: pos.1 }),
            final(self).anchor() == (Point { x: pos.0, y: pos.1 }),
    {
        proof {
            self.lemma_with_anchor(Point { x: pos.0, y: pos.1 }, Point { x: pos.0, y: pos.1 });
        }
        self.set_point(Point::new(pos.0, pos.1));
    }

    /// Move the shape along the x axis.
    fn translate_x(&mut self, dx: isize)
        requires
            shift_fits(old(self).anchor(), dx as int, 0),
        ensures
            *final(self) == old(self).with_anchor(shifted(old(self).anchor(), dx as int, 0)),
    {
        let p = self.point();
        self.set_point(Point::new(p.x + dx, p.y));
    }

    /// Move the shape along the y axis.
    fn translate_y(&mut self, dy: isize)
        requires
            shift_fits(old(self).anchor(), 0, dy as int),
        ensures
            *final(self) == old(self).with_anchor(shifted(old(self).anchor(), 0, dy as int)),
    {
        let p = self.point();
        self.set_point(Point::new(p.x, p.y + dy));
    }

    /// Move the shape by `pos`.
    fn translate(&mut self, pos: (isize, isize))
        requires
            shift_fits(old(self).anchor(), pos.0 as int, pos.1 as int),
        ensures
            *final(self) == old(self).with_anchor(
                shifted(old(self).anchor(), pos.0 as int, pos.1 as int),
            ),
    {
        let p = self.point();
        self.set_point(Point::new(p.x + pos.0, p.y + pos.1));
    }
}

impl Point {
    pub fn new(x: isize, y: isize) -> (r: Self)
        ensures
            r.x == x,
            r.y == y,
    {
        Self { x, y }
    }

    /// Raise each coordinate to that of `other` where it is greater.
    pub fn set_max(&mut self, other: &Self)
        ensures
            final(self).x == if other.x > old(self).x { other.x } else { old(self).x },
            final(self).y == if other.y > old(self).y { other.y } else { old(self).y },
    {
        if other.x > self.x {
            self.x = other.x;
        }
        if other.y > self.y {
            self.y = other.y;
        }
    }
}

impl Translate for Point {
    open spec fn anchor(&self) -> Point {
        *self
    }

    open spec fn with_anchor(&self, p: Point) -> Point {
        p
    }

    proof fn lemma_with_anchor(&self, p: Point, q: Point) {
    }

    fn point(&self) -> (r: Point) {
        *self
    }

    fn set_point(&mut self, p: Point) {
        *self = p;
    }
}

impl From<(isize, isize)> for Point {
    fn from(p: (isize, isize)) -> (r: Self) {
        Self::new(p.0, p.1)
    }
}

impl vstd::std_specs::convert::FromSpecImpl<(isize, isize)> for Point {
    open spec fn obeys_from_spec() -> bool {
        true
    }

    open spec fn from_spec(p: (isize, isize)) -> Point {
        Point { x: p.0, y: p.1 }
    }
}

/// The coordinates of `p` as mathematical integers.
pub open spec fn coords(p: Point) -> (int, int) {
    (p.x as int, p.y as int)
}

/// The sum of the first `n` relative offsets of a path.
pub open spec fn offset_sum(path: Seq<Point>, n: nat) -> (int, int)
    decreases n,
{
    if n == 0 {
        (0, 0)
    } else {
        let s = offset_sum(path, (n - 1) as nat);
        (s.0 + path[n - 1].x, s.1 + path[n - 1].y)
    }
}

/// The absolute points of a path that starts at `begin` and then steps by
/// each relative offset in turn.
pub open spec fn resolve(begin: Point, path: Seq<Point>) -> Seq<(int, int)> {
    Seq::new(
        path.len() + 1,
        |i: int| (begin.x + offset_sum(path, i as nat).0, begin.y + offset_sum(path, i as nat).1),
    )
}

/// The relative offsets between consecutive absolute points.
pub open spec fn relative(pts: Seq<Point>) -> Seq<Point> {
    Seq::new(
        (pts.len() - 1) as nat,
        |j: int| Point { x: (pts[j + 1].x - pts[j].x) as isize, y: (pts[j + 1].y - pts[j].y) as isize },
    )
}

/// Every step between consecutive absolute points can be held in a `Point`.
pub open spec fn steps_fit(pts: Seq<Point>) -> bool {
    forall|j: int|
        0 <= j < pts.len() - 1 ==> in_isize(#[trigger] pts[j + 1].x - pts[j].x) && in_isize(
            pts[j + 1].y - pts[j].y,
        )
}

/// A sequence of Points that form a line(s)
#[derive(Debug, Clone, PartialEq, Hash)]
pub struct Line {
    /// The begin point of the line(s)
    pub begin: Point,
    /// All of the relative points of the lines path
    pub path: Vec<Point>,
}

impl Line {
    /// The absolute points of the line, first `begin`, then one per offset.
    pub open spec fn absolute(&self) -> Seq<(int, int)> {
        resolve(self.begin, self.path@)
    }

    /// Every absolute point of the line can be held in a `Point`.
    pub open spec fn fits(&self) -> bool {
        forall|i: int|
            0 <= i < self.absolute().len() ==> in_isize(#[trigger] self.absolute()[i].0)
                && in_isize(self.absolute()[i].1)
    }

    pub fn new(begin: Point, path: Vec<Point>) -> (r: Self)
        ensures
            r.begin == begin,
            r.path@ == path@,
    {
        Self { begin, path }
    }

    /// Build a line through the given absolute points: the first becomes
    /// `begin`, each later one is stored relative to the one before it.
    pub fn from_points(pts: &[Point]) -> (r: Self)
        requires
            pts@.len() >= 1,
            steps_fit(pts@),
        ensures
            r.begin == pts@[0],
            r.path@ == relative(pts@),
    {
        let mut path: Vec<Point> = Vec::new();
        let mut j: usize = 1;
        while j < pts.len()
            invariant
                1 <= j <= pts@.len(),
                steps_fit(pts@),
                path@ == relative(pts@).take(j - 1),
            decreases pts@.len() - j,
        {
            let a = pts[j - 1];
            let b = pts[j];
            assert(in_isize(pts@[(j - 1) + 1].x - pts@[j - 1].x));
            path.push(Point::new(b.x - a.x, b.y - a.y));
            assert(path@ =~= relative(pts@).take(j as int));
            j += 1;
        }
        assert(path@ =~= relative(pts@));
        Self { begin: pts[0], path }
    }

    /// Resolve the path into its absolute points.
    pub fn path(&self) -> (r: Vec<Point>)
        requires
            self.fits(),
        ensures
            r@.len() == self.absolute().len(),
            forall|i: int| 0 <= i < r@.len() ==> coords(#[trigger] r@[i]) == self.absolute()[i],
    {
        let mut point = self.begin;
        let mut v: Vec<Point> = Vec::new();
        v.push(point);
        let mut k: usize = 0;
        while k < self.path.len()
            invariant
                k <= self.path@.len(),
                self.fits(),
                v@.len() == k + 1,
                point == v@[k as int],
                forall|i: int| 0 <= i <= k ==> coords(#[trigger] v@[i]) == self.absolute()[i],
            decreases self.path@.len() - k,
        {
            let p = self.path[k];
            assert(in_isize(self.absolute()[k + 1].0) && in_isize(self.absolute()[k + 1].1));
            point = Point::new(point.x + p.x, point.y + p.y);
            v.push(point);
            k += 1;
        }
        v
    }
}

/// The running offset sum of the steps between absolute points is the
/// distance from the first point.
proof fn lemma_offset_sum_relative(pts: Seq<Point>, n: nat)
    requires
        1 <= pts.len(),
        n < pts.len(),
        steps_fit(pts),
    ensures
        offset_sum(relative(pts), n) == (pts[n as int].x - pts[0].x, pts[n as int].y - pts[0].y),
    decreases n,
{
    if n > 0 {
        lemma_offset_sum_relative(pts, (n - 1) as nat);
        assert(in_isize(pts[(n - 1) + 1].x - pts[n - 1].x));
    }
}

/// A line built from absolute points resolves back to exactly those points,
/// in order.
pub proof fn lemma_line_round_trip(pts: Seq<Point>)
    requires
        pts.len() >= 1,
        steps_fit(pts),
    ensures
        resolve(pts[0], relative(pts)) == pts.map_values(|p: Point| coords(p)),
{
    assert forall|i: int| 0 <= i < pts.len() implies resolve(pts[0], relative(pts))[i] == coords(
        pts[i],
    ) by {
        lemma_offset_sum_relative(pts, i as nat);
    }
    assert(resolve(pts[0], relative(pts)) =~= pts.map_values(|p: Point| coords(p)));
}

impl Translate for Line {
    open spec fn anchor(&self) -> Point {
        self.begin
    }

    open spec fn with_anchor(&self, p: Point) -> Line {
        Line { begin: p, path: self.path }
    }

    proof fn lemma_with_anchor(&self, p: Point, q: Point) {
    }

    fn point(&self) -> (r: Point) {
        self.begin
    }

    fn set_point(&mut self, p: Point) {
        self.begin = p;
    }
}

/// A rectangular area with an origin (Point),
/// as well as a width and height
#[derive(Debug, Clone, PartialEq, Eq, Hash, Structural)]
pub struct Rect {
    /// The origin of the rectangle
    pub point: Point,
    /// The width of the rectangle
    pub width: usize,
    /// The height of the rectangle
    pub height: usize,
}

impl Rect {
    pub fn new(p: Point, width: usize, height: usize) -> (r: Self)
        ensures
            r.point == p,
            r.width == width,
            r.height == height,
    {
        Self { point: p, width, height }
    }
}

impl Translate for Rect {
    open spec fn anchor(&self) -> Point {
        self.point
    }

    open spec fn with_anchor(&self, p: Point) -> Rect {
        Rect { point: p, ..*self }
    }

    proof fn lemma_with_anchor(&self, p: Point, q: Point) {
    }

    fn point(&self) -> (r: Point) {
        self.point
    }

    fn set_point(&mut self, p: Point) {
        self.point = p;
    }
}

/// Translating a shape by `(dx, dy)` and then by `(-dx, -dy)` gives back
/// exactly the shape it started as.
pub proof fn lemma_translate_round_trip<T: Translate>(s: T, dx: int, dy: int)
    requires
        shift_fits(s.anchor(), dx, dy),
    ensures
        ({
            let moved = s.with_anchor(shifted(s.anchor(), dx, dy));
            &&& shift_fits(moved.anchor(), -dx, -dy)
            &&& moved.with_anchor(shifted(moved.anchor(), -dx, -dy)) == s
        }),
{
    let target = shifted(s.anchor(), dx, dy);
    s.lemma_with_anchor(target, s.anchor());
    let moved = s.with_anchor(target);
    assert(shifted(moved.anchor(), -dx, -dy) == s.anchor());
}

/// Moving a shape to `(x, y)` leaves its anchor exactly there, wherever the
/// shape stood before.
pub proof fn lemma_position_anchor<T: Translate>(s: T, x: isize, y: isize)
    ensures
        s.with_anchor(Point { x, y }).anchor() == (Point { x, y }),
{
    s.lemma_with_anchor(Point { x, y }, Point { x, y });
}

} // verus!
