//! # Surface
//! A surface contains a set of objects
//! that are intended to be displayed.
use crate::object::text::{Text, SIZE};
use crate::object::{coords, shift_fits, shifted, Line, Point, Rect, Translate};
use vstd::prelude::*;
use vstd::utf8::encode_utf8;

verus! {

/// A position on the surface
pub type Position = (usize, usize);

/// The type of position
#[derive(Debug, Clone, Copy, PartialEq, Eq, Hash, Structural)]
pub enum PositionType {
    /// The absolute position
    Abs,
    /// The relative position
    Rel,
}

/// Meta data about objects on the surface
#[derive(Debug, Clone, Copy, PartialEq, Eq, Hash)]
pub struct Meta {
    /// The position within the surface
    pub pos: Position,
    pub postype: PositionType,
}

impl Meta {
    /// An absolute position at the origin.
    pub fn new() -> (r: Self)
        ensures
            r.pos == (0usize, 0usize),
            r.postype == PositionType::Abs,
    {
        Self { pos: (0, 0), postype: PositionType::Abs }
    }
}

/// Group multiple objects together
#[derive(Debug, PartialEq, Hash)]
pub struct Group {
    pub meta: Meta,
    pub objects: Vec<Object>,
}

impl Group {
    /// A group of the given objects, positioned at the origin.
    pub fn new(objects: Vec<Object>) -> (r: Self)
        ensures
            r.objects@ == objects@,
            r.meta.pos == (0usize, 0usize),
            r.meta.postype == PositionType::Abs,
    {
        Self { meta: Meta::new(), objects }
    }
}

/// One drawable shape.
#[derive(Debug, Clone, PartialEq, Hash)]
pub enum Primitive {
    Point(Point),
    Line(Line),
    Rect(Rect),
    Text(Text),
}

impl Translate for Primitive {
    open spec fn anchor(&self) -> Point {
        match self {
            Primitive::Point(p) => p.anchor(),
            Primitive::Line(l) => l.anchor(),
            Primitive::Rect(r) => r.anchor(),
            Primitive::Text(t) => t.anchor(),
        }
    }

    open spec fn with_anchor(&self, q: Point) -> Primitive {
        match self {
            Primitive::Point(p) => Primitive::Point(p.with_anchor(q)),
            Primitive::Line(l) => Primitive::Line(l.with_anchor(q)),
            Primitive::Rect(r) => Primitive::Rect(r.with_anchor(q)),
            Primitive::Text(t) => Primitive::Text(t.with_anchor(q)),
        }
    }

    proof fn lemma_with_anchor(&self, p: Point, q: Point) {
        match self {
            Primitive::Point(x) => x.lemma_with_anchor(p, q),
            Primitive::Line(x) => x.lemma_with_anchor(p, q),
            Primitive::Rect(x) => x.lemma_with_anchor(p, q),
            Primitive::Text(x) => x.lemma_with_anchor(p, q),
        }
    }

    fn point(&self) -> (r: Point) {
        match self {
            Primitive::Point(p) => p.point(),
            Primitive::Line(l) => l.point(),
            Primitive::Rect(r) => r.point(),
            Primitive::Text(t) => t.point(),
        }
    }

    fn set_point(&mut self, q: Point) {
        match self {
            Primitive::Point(p) => p.set_point(q),
            Primitive::Line(l) => l.set_point(q),
            Primitive::Rect(r) => r.set_point(q),
            Primitive::Text(t) => t.set_point(q),
        }
    }
}

/// A drawable object: a single shape, or a group of objects.
#[derive(Debug, PartialEq, Hash)]
pub enum Object {
    Primitive(Primitive),
    Group(Group),
}

/// The object after `position(pos)`: a primitive is moved so that its anchor
/// stands at `pos`; a group is left as it is.
pub open spec fn positioned(o: Object, pos: (isize, isize)) -> Object {
    match o {
        Object::Primitive(p) => Object::Primitive(p.with_anchor(Point { x: pos.0, y: pos.1 })),
        Object::Group(_) => o,
    }
}

/// The object after `translate(pos)`: a primitive is moved by `pos`;
/// a group is left as it is.
pub open spec fn translated(o: Object, pos: (isize, isize)) -> Object {
    match o {
        Object::Primitive(p) => Object::Primitive(
            p.with_anchor(shifted(p.anchor(), pos.0 as int, pos.1 as int)),
        ),
        Object::Group(_) => o,
    }
}

/// Moving every top-level primitive by `pos` keeps its anchor within `isize`.
pub open spec fn translate_fits(objs: Seq<Object>, pos: (isize, isize)) -> bool {
    forall|i: int|
        0 <= i < objs.len() ==> (#[trigger] objs[i] matches Object::Primitive(p) ==> shift_fits(
            p.anchor(),
            pos.0 as int,
            pos.1 as int,
        ))
}

/// The componentwise maximum of two points.
pub open spec fn max2(a: (int, int), b: (int, int)) -> (int, int) {
    (if a.0 >= b.0 { a.0 } else { b.0 }, if a.1 >= b.1 { a.1 } else { b.1 })
}

/// The componentwise maximum of `acc` and every point of `pts`.
pub open spec fn fold_max(acc: (int, int), pts: Seq<(int, int)>) -> (int, int)
    decreases pts.len(),
{
    if pts.len() == 0 {
        acc
    } else {
        max2(fold_max(acc, pts.drop_last()), pts.last())
    }
}

/// The number of bytes in the UTF-8 encoding of the text.
pub open spec fn text_bytes(t: Text) -> int {
    encode_utf8(t.text@).len() as int
}

/// The far corner of the area that a primitive covers: a point itself,
/// the greatest coordinates of a line's absolute points, a rectangle's
/// origin plus its size, a text's origin plus its length times its font
/// size across and one standard line down.
pub open spec fn far_corner(acc: (int, int), p: Primitive) -> (int, int) {
    match p {
        Primitive::Point(q) => max2(acc, coords(q)),
        Primitive::Line(l) => fold_max(acc, l.absolute()),
        Primitive::Rect(r) => max2(acc, (r.point.x + r.width, r.point.y + r.height)),
        Primitive::Text(t) => max2(acc, (t.point.x + text_bytes(t) * t.size, t.point.y + SIZE)),
    }
}

/// The componentwise maximum, from `(0, 0)`, of the far corners of every
/// top-level primitive; groups are not looked into.
pub open spec fn extent(objs: Seq<Object>) -> (int, int)
    decreases objs.len(),
{
    if objs.len() == 0 {
        (0, 0)
    } else {
        let acc = extent(objs.drop_last());
        match objs.last() {
            Object::Primitive(p) => far_corner(acc, p),
            Object::Group(_) => acc,
        }
    }
}

/// Every top-level line resolves within `isize`, every top-level text is
/// shorter than `usize::MAX` bytes, and the extent of the objects can be
/// reported in `usize`.
pub open spec fn dimension_fits(objs: Seq<Object>) -> bool {
    &&& forall|i: int|
        0 <= i < objs.len() ==> (#[trigger] objs[i] matches Object::Primitive(
            Primitive::Line(l),
        ) ==> l.fits())
    &&& forall|i: int|
        0 <= i < objs.len() ==> (#[trigger] objs[i] matches Object::Primitive(
            Primitive::Text(t),
        ) ==> text_bytes(t) <= usize::MAX)
    &&& extent(objs).0 <= usize::MAX
    &&& extent(objs).1 <= usize::MAX
}

/// A surface contains a set of objects
/// that are intended to be displayed.
#[derive(Debug, PartialEq, Hash)]
pub struct Surface {
    meta: Meta,
    objects: Vec<Object>,
}

impl View for Surface {
    type V = Seq<Object>;

    closed spec fn view(&self) -> Seq<Object> {
        self.objects@
    }
}

proof fn lemma_fold_max_grows(acc: (int, int), pts: Seq<(int, int)>)
    ensures
        fold_max(acc, pts).0 >= acc.0,
        fold_max(acc, pts).1 >= acc.1,
    decreases pts.len(),
{
    if pts.len() > 0 {
        lemma_fold_max_grows(acc, pts.drop_last());
    }
}

proof fn lemma_extent_grows(objs: Seq<Object>, k: int)
    requires
        0 <= k <= objs.len(),
    ensures
        extent(objs).0 >= extent(objs.take(k)).0,
        extent(objs).1 >= extent(objs.take(k)).1,
    decreases objs.len(),
{
    if k < objs.len() {
        assert(objs.drop_last().take(k) =~= objs.take(k));
        lemma_extent_grows(objs.drop_last(), k);
        let acc = extent(objs.drop_last());
        match objs.last() {
            Object::Primitive(Primitive::Line(l)) => lemma_fold_max_grows(acc, l.absolute()),
            _ => {},
        }
    } else {
        assert(objs.take(k) =~= objs);
    }
}

proof fn lemma_extent_nonneg(objs: Seq<Object>)
    ensures
        extent(objs).0 >= 0,
        extent(objs).1 >= 0,
{
    lemma_extent_grows(objs, 0);
    assert(objs.take(0) =~= Seq::<Object>::empty());
}

impl Surface {
    /// A surface holding the given objects, in order.
    pub fn new(objects: Vec<Object>) -> (r: Self)
        ensures
            r@ == objects@,
    {
        Self { meta: Meta::new(), objects }
    }

    /// The objects of the surface, in order.
    pub fn objects(&self) -> (r: &Vec<Object>)
        ensures
            r@ == self@,
    {
        &self.objects
    }

    /// Give up the surface, keeping its objects in order.
    pub fn into_objects(self) -> (r: Vec<Object>)
        ensures
            r@ == self@,
    {
        self.objects
    }

    /// Call `f` on each object, in order.
    pub fn for_each<F: Fn(&Object)>(&self, f: F)
        requires
            forall|i: int| 0 <= i < self@.len() ==> call_requires(f, (&#[trigger] self@[i],)),
    {
        let n = self.objects.len();
        let mut i: usize = 0;
        while i < n
            invariant
                n == self@.len(),
                i <= n,
                forall|j: int| 0 <= j < self@.len() ==> call_requires(f, (&#[trigger] self@[j],)),
            decreases n - i,
        {
            f(&self.objects[i]);
            i += 1;
        }
    }

    /// Call `f` on each object, in order; `f` may change its own state.
    pub fn for_each_mut<F: FnMut(&Object)>(&self, mut f: F)
        requires
            forall|g: F, i: int| 0 <= i < self@.len() ==> call_requires(g, (&#[trigger] self@[i],)),
    {
        let n = self.objects.len();
        let mut i: usize = 0;
        while i < n
            invariant
                n == self@.len(),
                i <= n,
                forall|g: F, j: int| 0 <= j < self@.len() ==> call_requires(g, (&#[trigger] self@[j],)),
            decreases n - i,
        {
            f(&self.objects[i]);
            i += 1;
        }
    }

    /// Move every top-level primitive so that its anchor stands at `pos`.
    /// Groups are not looked into.
    pub fn position(&mut self, pos: (isize, isize))
        ensures
            final(self)@ == old(self)@.map_values(|o: Object| positioned(o, pos)),
    {
        let n = self.objects.len();
        let mut i: usize = 0;
        while i < n
            invariant
                n == old(self)@.len(),
                i <= n,
                self@.len() == n,
                forall|j: int| 0 <= j < i ==> self@[j] == positioned(#[trigger] old(self)@[j], pos),
                forall|j: int| i <= j < n ==> self@[j] == old(self)@[j],
            decreases n - i,
        {
            match &mut self.objects[i] {
                Object::Primitive(p) => p.position(pos),
                Object::Group(_) => {},
            }
            i += 1;
        }
        assert(self@ =~= old(self)@.map_values(|o: Object| positioned(o, pos)));
    }

    /// Move every top-level primitive by `pos`. Groups are not looked into.
    pub fn translate(&mut self, pos: (isize, isize))
        requires
            translate_fits(old(self)@, pos),
        ensures
            final(self)@ == old(self)@.map_values(|o: Object| translated(o, pos)),
    {
        let n = self.objects.len();
        let mut i: usize = 0;
        while i < n
            invariant
                n == old(self)@.len(),
                i <= n,
                self@.len() == n,
                translate_fits(old(self)@, pos),
                forall|j: int| 0 <= j < i ==> self@[j] == translated(#[trigger] old(self)@[j], pos),
                forall|j: int| i <= j < n ==> self@[j] == old(self)@[j],
            decreases n - i,
        {
            assert(old(self)@[i as int] == self@[i as int]);
            match &mut self.objects[i] {
                Object::Primitive(p) => p.translate(pos),
                Object::Group(_) => {},
            }
            i += 1;
        }
        assert(self@ =~= old(self)@.map_values(|o: Object| translated(o, pos)));
    }

    /// Move all of `other`'s objects to the end of this surface, leaving
    /// `other` empty.
    pub fn append(&mut self, other: &mut Surface)
        ensures
            final(self)@ == old(self)@ + old(other)@,
            final(other)@ == Seq::<Object>::empty(),
    {
        self.objects.append(&mut other.objects);
    }

    /// The componentwise maximum of the far corners of the top-level
    /// primitives, or `(0, 0)` when there are none.
    pub fn dimension(&self) -> (r: (usize, usize))
        requires
            dimension_fits(self@),
        ensures
            r.0 == extent(self@).0,
            r.1 == extent(self@).1,
    {
        let n = self.objects.len();
        let mut acc: (i128, i128) = (0, 0);
        let mut i: usize = 0;
        while i < n
            invariant
                n == self@.len(),
                i <= n,
                dimension_fits(self@),
                acc.0 == extent(self@.take(i as int)).0,
                acc.1 == extent(self@.take(i as int)).1,
            decreases n - i,
        {
            proof {
                lemma_extent_grows(self@, i + 1);
                lemma_extent_nonneg(self@.take(i + 1));
                assert(self@.take(i + 1).drop_last() =~= self@.take(i as int));
                assert(self@.take(i + 1).last() == self@[i as int]);
            }
            let ghost before = acc;
            match &self.objects[i] {
                Object::Primitive(Primitive::Point(p)) => {
                    acc = max_with(acc, p.x as i128, p.y as i128);
                },
                Object::Primitive(Primitive::Line(l)) => {
                    assert(self@[i as int] matches Object::Primitive(Primitive::Line(l)));
                    let pts = l.path();
                    let mut k: usize = 0;
                    while k < pts.len()
                        invariant
                            k <= pts@.len(),
                            pts@.len() == l.absolute().len(),
                            forall|m: int|
                                0 <= m < pts@.len() ==> coords(#[trigger] pts@[m])
                                    == l.absolute()[m],
                            acc.0 == fold_max((before.0 as int, before.1 as int), l.absolute().take(k as int)).0,
                            acc.1 == fold_max((before.0 as int, before.1 as int), l.absolute().take(k as int)).1,
                        decreases pts@.len() - k,
                    {
                        assert(l.absolute().take(k + 1).drop_last() =~= l.absolute().take(k as int));
                        acc = max_with(acc, pts[k].x as i128, pts[k].y as i128);
                        k += 1;
                    }
                    assert(l.absolute().take(k as int) =~= l.absolute());
                },
                Object::Primitive(Primitive::Rect(r)) => {
                    acc = max_with(acc, r.point.x as i128 + r.width as i128, r.point.y as i128 + r.height as i128);
                },
                Object::Primitive(Primitive::Text(t)) => {
                    assert(self@[i as int] matches Object::Primitive(Primitive::Text(t)));
                    let len = t.text.as_str().len();
                    proof {
                        lemma_product_bound(len as int, t.size as int);
                    }
                    let across = len as i128 * t.size as i128;
                    acc = max_with(acc, t.point.x as i128 + across, t.point.y as i128 + SIZE as i128);
                },
                Object::Group(_) => {},
            }
            i += 1;
        }
        proof {
            assert(self@.take(n as int) =~= self@);
            lemma_extent_nonneg(self@);
        }
        (acc.0 as usize, acc.1 as usize)
    }
}

proof fn lemma_product_bound(a: int, b: int)
    requires
        0 <= a <= usize::MAX,
        0 <= b <= u32::MAX,
    ensures
        0 <= a * b <= 0x1_0000_0000_0000_0000_0000_0000,
{
    assert(0 <= a * b <= 0x1_0000_0000_0000_0000 * 0x1_0000_0000) by (nonlinear_arith)
        requires
            0 <= a <= 0x1_0000_0000_0000_0000,
            0 <= b <= 0x1_0000_0000,
    ;
}

/// The componentwise maximum of `acc` and `(x, y)`.
fn max_with(acc: (i128, i128), x: i128, y: i128) -> (r: (i128, i128))
    ensures
        (r.0 as int, r.1 as int) == max2((acc.0 as int, acc.1 as int), (x as int, y as int)),
{
    (if acc.0 >= x { acc.0 } else { x }, if acc.1 >= y { acc.1 } else { y })
}

} // verus!
