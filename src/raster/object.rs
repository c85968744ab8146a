//! The pixel coordinates that each primitive covers.
use crate::object::{coords, in_isize, Line, Point, Rect};
use crate::raster::Error;
use crate::surface::Primitive;
use vstd::arithmetic::div_mod::{lemma_div_is_ordered, lemma_hoist_over_denominator};
use vstd::prelude::*;

verus! {

/// A pixel coordinate as mathematical integers.
pub open spec fn ints(c: (usize, usize)) -> (int, int) {
    (c.0 as int, c.1 as int)
}

/// Pixel coordinates as mathematical integers.
pub open spec fn as_ints(v: Seq<(usize, usize)>) -> Seq<(int, int)> {
    v.map_values(|c: (usize, usize)| ints(c))
}

proof fn lemma_as_ints_push(v: Seq<(usize, usize)>, c: (usize, usize))
    ensures
        as_ints(v.push(c)) == as_ints(v).push(ints(c)),
{
    assert(as_ints(v.push(c)) =~= as_ints(v).push(ints(c)));
}

pub open spec fn min(a: int, b: int) -> int {
    if a <= b { a } else { b }
}

pub open spec fn max(a: int, b: int) -> int {
    if a >= b { a } else { b }
}

pub open spec fn abs(a: int) -> int {
    if a >= 0 { a } else { -a }
}

/// The y that the x-driven sampling gives at `x` on the segment from `p1`
/// to `p2`: with slope `m = dy / dx`, `y = y1 + m * x - m * x1`, where
/// each product is truncated toward zero.
pub open spec fn slope_y(p1: (int, int), p2: (int, int), x: int) -> int {
    let mag = abs(p2.1 - p1.1);
    let den = abs(p2.0 - p1.0);
    if (p2.1 > p1.1) == (p2.0 > p1.0) {
        p1.1 + (mag * x) / den - (mag * p1.0) / den
    } else {
        p1.1 - (mag * x) / den + (mag * p1.0) / den
    }
}

/// The coordinates of one segment: every y between the ends of a vertical
/// segment, every x between the ends of a horizontal one, and otherwise
/// one y per x from the lower x to the higher.
pub open spec fn segment(p1: (int, int), p2: (int, int)) -> Seq<(int, int)> {
    if p1.0 == p2.0 {
        let lo = min(p1.1, p2.1);
        Seq::new((abs(p2.1 - p1.1) + 1) as nat, |i: int| (p1.0, lo + i))
    } else if p1.1 == p2.1 {
        let lo = min(p1.0, p2.0);
        Seq::new((abs(p2.0 - p1.0) + 1) as nat, |i: int| (lo + i, p1.1))
    } else {
        let lo = min(p1.0, p2.0);
        Seq::new((abs(p2.0 - p1.0) + 1) as nat, |i: int| (lo + i, slope_y(p1, p2, lo + i)))
    }
}

/// The segments between consecutive points, one after another.
pub open spec fn polyline(pts: Seq<(int, int)>) -> Seq<(int, int)>
    decreases pts.len(),
{
    if pts.len() < 2 {
        Seq::empty()
    } else {
        polyline(pts.drop_last()) + segment(pts[pts.len() - 2], pts.last())
    }
}

/// The four edges of a rectangle: top, bottom, left, right.
pub open spec fn outline(r: Rect) -> Seq<(int, int)> {
    let (x, y) = coords(r.point);
    let tl = (x, y);
    let tr = (x + r.width, y);
    let bl = (x, y + r.height);
    let br = (x + r.width, y + r.height);
    segment(tl, tr) + segment(bl, br) + segment(tl, bl) + segment(tr, br)
}

/// The coordinates a primitive covers; a text covers none.
pub open spec fn coverage(p: Primitive) -> Seq<(int, int)> {
    match p {
        Primitive::Point(q) => seq![coords(q)],
        Primitive::Line(l) => polyline(l.absolute()),
        Primitive::Rect(r) => outline(r),
        Primitive::Text(_) => Seq::empty(),
    }
}

/// The primitive lies in the unsigned plane: no coordinate is negative, a
/// line resolves within `isize`, and a rectangle's far edges fit in `usize`.
pub open spec fn raster_ready(p: Primitive) -> bool {
    match p {
        Primitive::Point(q) => q.x >= 0 && q.y >= 0,
        Primitive::Line(l) => l.fits() && forall|i: int|
            0 <= i < l.absolute().len() ==> #[trigger] l.absolute()[i].0 >= 0 && l.absolute()[i].1 >= 0,
        Primitive::Rect(r) => r.point.x >= 0 && r.point.y >= 0 && r.point.x + r.width <= usize::MAX
            && r.point.y + r.height <= usize::MAX,
        Primitive::Text(_) => true,
    }
}

/// On a slanted segment the sampled y at each x between the ends lies
/// between the ends' y.
proof fn lemma_slope_y_between(p1: (int, int), p2: (int, int), x: int)
    requires
        p1.0 != p2.0,
        p1.1 != p2.1,
        0 <= p1.0,
        0 <= p2.0,
        min(p1.0, p2.0) <= x <= max(p1.0, p2.0),
    ensures
        min(p1.1, p2.1) <= slope_y(p1, p2, x) <= max(p1.1, p2.1),
{
    let mag = abs(p2.1 - p1.1);
    let den = abs(p2.0 - p1.0);
    let lo = min(p1.0, p2.0);
    let hi = max(p1.0, p2.0);
    assert(hi == lo + den);
    assert(mag * hi == mag * lo + mag * den) by (nonlinear_arith)
        requires
            hi == lo + den,
    ;
    lemma_hoist_over_denominator(mag * lo, mag, den as nat);
    assert((mag * hi) / den == (mag * lo) / den + mag);
    assert(mag * lo <= mag * x <= mag * hi) by (nonlinear_arith)
        requires
            lo <= x <= hi,
            0 <= mag,
    ;
    lemma_div_is_ordered(mag * lo, mag * x, den);
    lemma_div_is_ordered(mag * x, mag * hi, den);
}

/// The unsigned coordinates of a point of the unsigned plane.
fn point(p: &Point) -> (r: (usize, usize))
    requires
        p.x >= 0,
        p.y >= 0,
    ensures
        ints(r) == coords(*p),
{
    (p.x as usize, p.y as usize)
}

/// `(mag * x) / den`.
fn scaled(mag: usize, x: usize, den: usize) -> (r: u128)
    requires
        den > 0,
    ensures
        r == (mag * x) / (den as int),
{
    proof {
        assert(0 <= mag * x <= usize::MAX * usize::MAX) by (nonlinear_arith)
            requires
                mag <= usize::MAX,
                x <= usize::MAX,
        ;
        assert(usize::MAX * usize::MAX <= u128::MAX) by (nonlinear_arith)
            requires
                usize::MAX <= 0xffff_ffff_ffff_ffff,
        ;
    }
    (mag as u128 * x as u128) / den as u128
}

/// The y that the x-driven sampling gives at `x` on a slanted segment.
fn sample_y(p1: (usize, usize), p2: (usize, usize), x: usize) -> (y: usize)
    requires
        p1.0 != p2.0,
        p1.1 != p2.1,
        min(p1.0 as int, p2.0 as int) <= x <= max(p1.0 as int, p2.0 as int),
    ensures
        y == slope_y(ints(p1), ints(p2), x as int),
{
    let den = if p1.0 < p2.0 { p2.0 - p1.0 } else { p1.0 - p2.0 };
    let mag = if p1.1 < p2.1 { p2.1 - p1.1 } else { p1.1 - p2.1 };
    let rising = (p2.1 > p1.1) == (p2.0 > p1.0);
    let q1 = scaled(mag, p1.0, den);
    let q = scaled(mag, x, den);
    proof {
        lemma_slope_y_between(ints(p1), ints(p2), x as int);
    }
    if rising {
        if q >= q1 {
            (p1.1 as u128 + (q - q1)) as usize
        } else {
            (p1.1 as u128 - (q1 - q)) as usize
        }
    } else {
        if q >= q1 {
            (p1.1 as u128 - (q - q1)) as usize
        } else {
            (p1.1 as u128 + (q1 - q)) as usize
        }
    }
}

/// The coordinates of the segment from `p1` to `p2`.
fn point_to_point(p1: (usize, usize), p2: (usize, usize)) -> (r: Vec<(usize, usize)>)
    ensures
        as_ints(r@) == segment(ints(p1), ints(p2)),
{
    let ghost seg = segment(ints(p1), ints(p2));
    let mut v: Vec<(usize, usize)> = Vec::new();
    if p1.0 == p2.0 {
        let (lo, hi) = if p1.1 < p2.1 { (p1.1, p2.1) } else { (p2.1, p1.1) };
        let mut y = lo;
        v.push((p1.0, y));
        while y < hi
            invariant
                lo <= y <= hi,
                lo == min(p1.1 as int, p2.1 as int),
                hi == max(p1.1 as int, p2.1 as int),
                seg == segment(ints(p1), ints(p2)),
                p1.0 == p2.0,
                as_ints(v@) == seg.take(y - lo + 1),
            decreases hi - y,
        {
            y += 1;
            let ghost prev = v@;
            v.push((p1.0, y));
            proof {
                lemma_as_ints_push(prev, (p1.0, y));
                assert(seg.take(y - lo + 1) =~= seg.take(y - lo).push(seg[y - lo]));
            }
        }
        assert(seg.take(y - lo + 1) =~= seg);
    } else if p1.1 == p2.1 {
        let (lo, hi) = if p1.0 < p2.0 { (p1.0, p2.0) } else { (p2.0, p1.0) };
        let mut x = lo;
        v.push((x, p1.1));
        while x < hi
            invariant
                lo <= x <= hi,
                lo == min(p1.0 as int, p2.0 as int),
                hi == max(p1.0 as int, p2.0 as int),
                seg == segment(ints(p1), ints(p2)),
                p1.0 != p2.0,
                p1.1 == p2.1,
                as_ints(v@) == seg.take(x - lo + 1),
            decreases hi - x,
        {
            x += 1;
            let ghost prev = v@;
            v.push((x, p1.1));
            proof {
                lemma_as_ints_push(prev, (x, p1.1));
                assert(seg.take(x - lo + 1) =~= seg.take(x - lo).push(seg[x - lo]));
            }
        }
        assert(seg.take(x - lo + 1) =~= seg);
    } else {
        let (lo, hi) = if p1.0 < p2.0 { (p1.0, p2.0) } else { (p2.0, p1.0) };
        let mut x = lo;
        let y = sample_y(p1, p2, x);
        v.push((x, y));
        assert(as_ints(v@) =~= seg.take(x - lo + 1));
        while x < hi
            invariant
                lo <= x <= hi,
                lo == min(p1.0 as int, p2.0 as int),
                hi == max(p1.0 as int, p2.0 as int),
                seg == segment(ints(p1), ints(p2)),
                p1.0 != p2.0,
                p1.1 != p2.1,
                as_ints(v@) == seg.take(x - lo + 1),
            decreases hi - x,
        {
            x += 1;
            let y = sample_y(p1, p2, x);
            let ghost prev = v@;
            v.push((x, y));
            proof {
                lemma_as_ints_push(prev, (x, y));
                assert(seg.take(x - lo + 1) =~= seg.take(x - lo).push(seg[x - lo]));
            }
        }
        assert(seg.take(x - lo + 1) =~= seg);
    }
    v
}

/// The coordinates of the segments between consecutive points of a line.
fn line(l: &Line) -> (r: Vec<(usize, usize)>)
    requires
        raster_ready(Primitive::Line(*l)),
    ensures
        as_ints(r@) == polyline(l.absolute()),
{
    let pts = l.path();
    let ghost abs_pts = l.absolute();
    let mut v: Vec<(usize, usize)> = Vec::new();
    assert forall|m: int| 0 <= m < abs_pts.len() implies abs_pts[m].0 >= 0 && abs_pts[m].1 >= 0 by {
        assert(l.absolute()[m].0 >= 0 && l.absolute()[m].1 >= 0);
    }
    assert(coords(pts@[0]) == abs_pts[0]);
    let mut p1 = point(&pts[0]);
    let mut i: usize = 1;
    while i < pts.len()
        invariant
            1 <= i <= pts@.len(),
            pts@.len() == abs_pts.len(),
            abs_pts == l.absolute(),
            forall|m: int| 0 <= m < abs_pts.len() ==> #[trigger] abs_pts[m].0 >= 0 && abs_pts[m].1 >= 0,
            forall|m: int| 0 <= m < pts@.len() ==> coords(#[trigger] pts@[m]) == abs_pts[m],
            ints(p1) == abs_pts[i - 1],
            as_ints(v@) == polyline(abs_pts.take(i as int)),
        decreases pts@.len() - i,
    {
        assert(coords(pts@[i as int]) == abs_pts[i as int]);
        assert(abs_pts[i as int].0 >= 0 && abs_pts[i as int].1 >= 0);
        let p2 = point(&pts[i]);
        let mut seg = point_to_point(p1, p2);
        let ghost before = v@;
        v.append(&mut seg);
        proof {
            let t = abs_pts.take(i + 1);
            assert(t.drop_last() =~= abs_pts.take(i as int));
            assert(t[t.len() - 2] == abs_pts[i - 1]);
            assert(as_ints(v@) =~= polyline(abs_pts.take(i as int))
                + segment(ints(p1), ints(p2)));
        }
        p1 = p2;
        i += 1;
    }
    assert(abs_pts.take(i as int) =~= abs_pts);
    v
}

/// The coordinates of the four edges of a rectangle.
fn rect(r: &Rect) -> (v: Vec<(usize, usize)>)
    requires
        raster_ready(Primitive::Rect(*r)),
    ensures
        as_ints(v@) == outline(*r),
{
    let p = point(&r.point);
    let (w, h) = (r.width, r.height);
    let (tl, tr) = (p, (p.0 + w, p.1));
    let (bl, br) = ((p.0, p.1 + h), (p.0 + w, p.1 + h));
    let mut v = point_to_point(tl, tr);
    let mut b = point_to_point(bl, br);
    let mut left = point_to_point(tl, bl);
    let mut right = point_to_point(tr, br);
    v.append(&mut b);
    v.append(&mut left);
    v.append(&mut right);
    assert(as_ints(v@) =~= outline(*r));
    v
}

/// The pixel coordinates that a primitive covers: a point its own, a line
/// those of the segments between its consecutive points, a rectangle those
/// of its four edges. A text has no raster form.
pub fn object(p: &Primitive) -> (r: Result<Vec<(usize, usize)>, Error>)
    requires
        raster_ready(*p),
    ensures
        p is Text ==> r == Err::<Vec<(usize, usize)>, Error>(Error::Unsupported),
        !(p is Text) ==> r is Ok && as_ints(r->Ok_0@) == coverage(*p),
{
    match p {
        Primitive::Point(q) => {
            let v = vec![point(q)];
            assert(as_ints(v@) =~= coverage(*p));
            Ok(v)
        },
        Primitive::Line(l) => Ok(line(l)),
        Primitive::Rect(r) => Ok(rect(r)),
        Primitive::Text(_) => Err(Error::Unsupported),
    }
}

/// Whether a primitive lies in the unsigned plane, so that it can be drawn.
pub fn ready(p: &Primitive) -> (r: bool)
    ensures
        r == raster_ready(*p),
{
    match p {
        Primitive::Point(q) => q.x >= 0 && q.y >= 0,
        Primitive::Line(l) => line_ready(l),
        Primitive::Rect(r) => {
            r.point.x >= 0 && r.point.y >= 0 && (r.point.x as u128) + (r.width as u128) <= usize::MAX as u128
                && (r.point.y as u128) + (r.height as u128) <= usize::MAX as u128
        },
        Primitive::Text(_) => true,
    }
}

/// Whether every absolute point of a line is a non-negative `isize` pair.
fn line_ready(l: &Line) -> (r: bool)
    ensures
        r == raster_ready(Primitive::Line(*l)),
{
    let ghost a = l.absolute();
    assert(a[0] == (l.begin.x as int, l.begin.y as int));
    if l.begin.x < 0 || l.begin.y < 0 {
        assert(l.absolute()[0].0 < 0 || l.absolute()[0].1 < 0);
        return false;
    }
    let mut cx: i128 = l.begin.x as i128;
    let mut cy: i128 = l.begin.y as i128;
    let n = l.path.len();
    let mut k: usize = 0;
    while k < n
        invariant
            n == l.path@.len(),
            k <= n,
            a == l.absolute(),
            (cx as int, cy as int) == a[k as int],
            forall|i: int| 0 <= i <= k ==> 0 <= #[trigger] a[i].0 <= isize::MAX && 0 <= a[i].1 <= isize::MAX,
        decreases n - k,
    {
        assert(l.absolute()[k as int].0 <= isize::MAX && l.absolute()[k as int].1 <= isize::MAX);
        let step = l.path[k];
        cx = cx + step.x as i128;
        cy = cy + step.y as i128;
        k += 1;
        assert((cx as int, cy as int) == l.absolute()[k as int]);
        if cx < 0 || cx > isize::MAX as i128 || cy < 0 || cy > isize::MAX as i128 {
            assert(!in_isize(l.absolute()[k as int].0) || !in_isize(l.absolute()[k as int].1)
                || l.absolute()[k as int].0 < 0 || l.absolute()[k as int].1 < 0);
            return false;
        }
    }
    true
}

} // verus!
