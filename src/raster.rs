//! # Raster
//! Convert vector graphics into raster graphics
use crate::raster::object::{as_ints, coverage, object, raster_ready, ready};
use crate::surface::{Object, Primitive, Surface};
use vstd::prelude::*;

pub mod object;

verus! {

/// Data for a single picture element of a raster image
#[derive(Debug, Copy, Clone, PartialEq, Eq, Structural)]
pub enum Pixel {
    /// Data for red, green and blue channels
    Rgb(u8, u8, u8),
    /// Data for red, green, blue and alpha channels
    Rgba(u8, u8, u8, u8),
}

/// The bytes that a pixel writes, one per channel.
pub open spec fn pixel_bytes(p: Pixel) -> Seq<u8> {
    match p {
        Pixel::Rgb(r, g, b) => seq![r, g, b],
        Pixel::Rgba(r, g, b, a) => seq![r, g, b, a],
    }
}

/// The type of a pixel
#[derive(Debug, Copy, Clone, PartialEq, Eq, Structural)]
pub enum PixelType {
    /// Red, green and blue channels
    Rgb,
    /// Red, green, blue and alpha channels
    Rgba,
}

impl PixelType {
    /// The number of channels of a pixel of this type.
    pub open spec fn spec_channels(self) -> nat {
        match self {
            PixelType::Rgb => 3,
            PixelType::Rgba => 4,
        }
    }

    /// The number of channels in a pixel
    pub fn channels(&self) -> (r: usize)
        ensures
            r == self.spec_channels(),
    {
        match self {
            PixelType::Rgb => 3,
            PixelType::Rgba => 4,
        }
    }

    /// A pixel matches the type when it has as many channels.
    pub fn matches(&self, p: &Pixel) -> (r: bool)
        ensures
            r == (pixel_bytes(*p).len() == self.spec_channels()),
    {
        match self {
            PixelType::Rgb => match p {
                Pixel::Rgb(_, _, _) => true,
                _ => false,
            },
            PixelType::Rgba => match p {
                Pixel::Rgba(_, _, _, _) => true,
                _ => false,
            },
        }
    }
}

/// An error from trying to create a raster image
#[derive(Debug, Copy, Clone, PartialEq, Eq, Structural)]
pub enum Error {
    /// Object position out of the
    /// bounds of the image
    Bound,
    /// Wrong pixel type
    Pixel,
    /// An object that has no raster form (text)
    Unsupported,
}

/// The background colour of a new image, in every channel.
pub const WHITE: u8 = 0xFF;

/// `buf` with `bytes` written over it from index `at` on.
pub open spec fn splice(buf: Seq<u8>, at: int, bytes: Seq<u8>) -> Seq<u8> {
    Seq::new(buf.len(), |i: int| if at <= i < at + bytes.len() { bytes[i - at] } else { buf[i] })
}

/// The bytes of a run of pixels, one after another.
pub open spec fn run_bytes(ps: Seq<Pixel>) -> Seq<u8>
    decreases ps.len(),
{
    if ps.len() == 0 {
        Seq::empty()
    } else {
        run_bytes(ps.drop_last()) + pixel_bytes(ps.last())
    }
}

/// Row-major byte index of the pixel at `(x, y)`.
pub open spec fn index_of(channels: int, width: int, x: int, y: int) -> int {
    channels * (x + y * width)
}

/// `buf` after each coordinate of `cs` in turn has been painted `color`;
/// a coordinate outside `[0, width) x [0, height)` paints nothing.
pub open spec fn paint(
    buf: Seq<u8>,
    channels: int,
    width: int,
    height: int,
    color: Seq<u8>,
    cs: Seq<(int, int)>,
) -> Seq<u8>
    decreases cs.len(),
{
    if cs.len() == 0 {
        buf
    } else {
        let before = paint(buf, channels, width, height, color, cs.drop_last());
        let (x, y) = cs.last();
        if 0 <= x < width && 0 <= y < height {
            splice(before, index_of(channels, width, x, y), color)
        } else {
            before
        }
    }
}

/// How many coordinates of `cs` fall outside `[0, width) x [0, height)`.
pub open spec fn misses(width: int, height: int, cs: Seq<(int, int)>) -> nat
    decreases cs.len(),
{
    if cs.len() == 0 {
        0
    } else {
        let (x, y) = cs.last();
        let before = misses(width, height, cs.drop_last());
        if 0 <= x < width && 0 <= y < height {
            before
        } else {
            before + 1
        }
    }
}

/// `n`, or `usize::MAX` if it is greater.
pub open spec fn capped(n: nat) -> usize {
    if n <= usize::MAX {
        n as usize
    } else {
        usize::MAX
    }
}

/// The coordinates that the top-level primitives of a surface cover, in
/// order; groups are not looked into.
pub open spec fn surface_coverage(objs: Seq<Object>) -> Seq<(int, int)>
    decreases objs.len(),
{
    if objs.len() == 0 {
        Seq::empty()
    } else {
        let before = surface_coverage(objs.drop_last());
        match objs.last() {
            Object::Primitive(p) => before + coverage(p),
            Object::Group(_) => before,
        }
    }
}

/// Some top-level object of the surface is a text.
pub open spec fn has_text(objs: Seq<Object>) -> bool {
    exists|i: int| 0 <= i < objs.len() && #[trigger] objs[i] matches Object::Primitive(Primitive::Text(_))
}

/// Every top-level primitive of the surface has a raster form.
pub open spec fn all_ready(objs: Seq<Object>) -> bool {
    forall|i: int| 0 <= i < objs.len() ==> (#[trigger] objs[i] matches Object::Primitive(p) ==> raster_ready(p))
}

/// The stroke colour for an image of the given type.
pub open spec fn stroke(t: PixelType) -> Pixel {
    match t {
        PixelType::Rgb => Pixel::Rgb(0, 0, 0),
        PixelType::Rgba => Pixel::Rgba(0, 0, 0, 0),
    }
}

/// A raster image
pub struct Image {
    /// Image filename
    pub name: String,
    /// Width of the image
    width: usize,
    /// Height of the image
    height: usize,
    /// The type of pixels
    pixel: PixelType,
    /// Image pixel buffer
    buffer: Vec<u8>,
}

impl View for Image {
    type V = Seq<u8>;

    /// The bytes of the image, row by row.
    closed spec fn view(&self) -> Seq<u8> {
        self.buffer@
    }
}

proof fn lemma_index_in_buffer(c: int, w: int, h: int, x: int, y: int)
    requires
        0 < c,
        0 <= x < w,
        0 <= y < h,
    ensures
        0 <= y * w <= x + y * w <= index_of(c, w, x, y),
        index_of(c, w, x, y) + c <= c * (w * h),
{
    assert(0 <= y * w <= x + y * w <= c * (x + y * w) && c * (x + y * w) + c <= c * (w * h)) by (nonlinear_arith)
        requires
            0 < c,
            0 <= x < w,
            0 <= y < h,
    ;
}

impl Image {
    /// The number of pixels across.
    pub closed spec fn spec_width(&self) -> nat {
        self.width as nat
    }

    /// The number of pixels down.
    pub closed spec fn spec_height(&self) -> nat {
        self.height as nat
    }

    /// The file name of the image.
    pub closed spec fn spec_name(&self) -> Seq<char> {
        self.name@
    }

    /// The type of every pixel.
    pub closed spec fn format(&self) -> PixelType {
        self.pixel
    }

    /// The buffer holds one byte per channel of every pixel.
    pub closed spec fn wf(&self) -> bool {
        self.buffer@.len() == self.pixel.spec_channels() * (self.width * self.height)
    }

    /// Create a new blank image
    pub fn new(name: &str, width: usize, height: usize, pixel: PixelType) -> (r: Self)
        requires
            pixel.spec_channels() * (width * height) <= usize::MAX,
        ensures
            r.wf(),
            r.spec_name() == name@,
            r.spec_width() == width,
            r.spec_height() == height,
            r.format() == pixel,
            r@ == Seq::new((pixel.spec_channels() * (width * height)) as nat, |i: int| WHITE),
    {
        proof {
            assert(0 <= width * height <= pixel.spec_channels() * (width * height)) by (nonlinear_arith)
                requires
                    pixel.spec_channels() >= 1,
            ;
        }
        let n = pixel.channels() * (width * height);
        let buffer = vec![WHITE; n];
        let r = Self { name: name.to_owned(), width, height, pixel, buffer };
        assert(r@ =~= Seq::new((pixel.spec_channels() * (width * height)) as nat, |i: int| WHITE));
        r
    }

    pub fn width(&self) -> (r: usize)
        ensures
            r == self.spec_width(),
    {
        self.width
    }

    pub fn height(&self) -> (r: usize)
        ensures
            r == self.spec_height(),
    {
        self.height
    }

    pub fn pixel_type(&self) -> (r: PixelType)
        ensures
            r == self.format(),
    {
        self.pixel
    }

    /// The bytes of the image, row by row.
    pub fn buffer(&self) -> (r: &Vec<u8>)
        ensures
            r@ == self@,
    {
        &self.buffer
    }

    /// Byte index of the pixel at `pos`.
    fn index(&self, pos: (usize, usize)) -> (r: usize)
        requires
            self.wf(),
            pos.0 < self.width,
            pos.1 < self.height,
        ensures
            r == index_of(self.pixel.spec_channels() as int, self.width as int, pos.0 as int, pos.1 as int),
            r + self.pixel.spec_channels() <= self.buffer@.len(),
    {
        proof {
            lemma_index_in_buffer(self.pixel.spec_channels() as int, self.width as int, self.height as int, pos.0 as int, pos.1 as int);
        }
        let _len = self.buffer.len();
        let count = self.pixel.channels();
        let x = pos.0;
        let y = pos.1 * self.width;
        count * (x + y)
    }

    /// Write one pixel at `pos`.
    pub fn pixel(&mut self, pixel: Pixel, pos: (usize, usize)) -> (r: Result<(), Error>)
        requires
            old(self).wf(),
        ensures
            final(self).wf(),
            final(self).spec_width() == old(self).spec_width(),
            final(self).spec_height() == old(self).spec_height(),
            final(self).format() == old(self).format(),
            final(self).spec_name() == old(self).spec_name(),
            pixel_bytes(pixel).len() != old(self).format().spec_channels() ==> r == Err::<(), Error>(Error::Pixel),
            pixel_bytes(pixel).len() == old(self).format().spec_channels() ==> {
                if pos.0 < old(self).spec_width() && pos.1 < old(self).spec_height() {
                    &&& r == Ok::<(), Error>(())
                    &&& final(self)@ == splice(old(self)@, index_of(old(self).format().spec_channels() as int, old(self).spec_width() as int, pos.0 as int, pos.1 as int), pixel_bytes(pixel))
                } else {
                    r == Err::<(), Error>(Error::Bound)
                }
            },
            r is Err ==> final(self)@ == old(self)@,
    {
        let ps: Vec<Pixel> = vec![pixel];
        proof {
            assert(ps@ =~= seq![pixel]);
            assert(seq![pixel].drop_last() =~= Seq::<Pixel>::empty());
            assert(seq![pixel].last() == pixel);
            assert(run_bytes(Seq::<Pixel>::empty()) == Seq::<u8>::empty());
            assert(Seq::<u8>::empty() + pixel_bytes(pixel) =~= pixel_bytes(pixel));
            assert(run_bytes(seq![pixel]) =~= pixel_bytes(pixel));
            assert(ps@[0] == pixel);
            assert(ps@.len() * self.pixel.spec_channels() == self.pixel.spec_channels()) by (nonlinear_arith)
                requires
                    ps@.len() == 1,
            ;
            if pos.0 < self.width && pos.1 < self.height {
                lemma_index_in_buffer(self.pixel.spec_channels() as int, self.width as int, self.height as int, pos.0 as int, pos.1 as int);
            }
        }
        self.pixels(ps.as_slice(), pos)
    }

    /// Write a run of pixels, one after another, from `pos` on.
    ///
    /// Every pixel must match the image's type, else nothing is written and
    /// the error is `Error::Pixel`. The run must start inside the image and
    /// end inside its buffer, else nothing is written and the error is
    /// `Error::Bound`.
    pub fn pixels(&mut self, pixels: &[Pixel], pos: (usize, usize)) -> (r: Result<(), Error>)
        requires
            old(self).wf(),
        ensures
            final(self).wf(),
            final(self).spec_width() == old(self).spec_width(),
            final(self).spec_height() == old(self).spec_height(),
            final(self).format() == old(self).format(),
            final(self).spec_name() == old(self).spec_name(),
            (exists|i: int| 0 <= i < pixels@.len() && pixel_bytes(#[trigger] pixels@[i]).len() != old(self).format().spec_channels())
                ==> r == Err::<(), Error>(Error::Pixel),
            (forall|i: int| 0 <= i < pixels@.len() ==> pixel_bytes(#[trigger] pixels@[i]).len() == old(self).format().spec_channels())
                ==> {
                let at = index_of(old(self).format().spec_channels() as int, old(self).spec_width() as int, pos.0 as int, pos.1 as int);
                if pos.0 < old(self).spec_width() && pos.1 < old(self).spec_height()
                    && at + pixels@.len() * old(self).format().spec_channels() <= old(self)@.len() {
                    &&& r == Ok::<(), Error>(())
                    &&& final(self)@ == splice(old(self)@, at, run_bytes(pixels@))
                } else {
                    r == Err::<(), Error>(Error::Bound)
                }
            },
            r is Err ==> final(self)@ == old(self)@,
    {
        let n = pixels.len();
        if !all_match(self.pixel, pixels) {
            return Err(Error::Pixel);
        }
        if pos.0 < self.width && pos.1 < self.height {
            let count = self.pixel.channels();
            let start = self.index(pos);
            if (n as u128) * (count as u128) + (start as u128) <= self.buffer.len() as u128 {
                let ghost old_buf = self.buffer@;
                let blen = self.buffer.len();
                let mut index = start;
                let mut k: usize = 0;
                while k < n
                    invariant
                        n == pixels@.len(),
                        k <= n,
                        count == self.pixel.spec_channels(),
                        count >= 3,
                        self.buffer@.len() == old_buf.len(),
                        blen == old_buf.len(),
                        old_buf == old(self).buffer@,
                        self.width == old(self).width,
                        self.height == old(self).height,
                        self.pixel == old(self).pixel,
                        self.name@ == old(self).name@,
                        k < n ==> index == start + k * count,
                        start + n * count <= old_buf.len(),
                        forall|i: int| 0 <= i < n ==> pixel_bytes(#[trigger] pixels@[i]).len() == count,
                        run_bytes(pixels@.take(k as int)).len() == k * count,
                        self.buffer@ == splice(old_buf, start as int, run_bytes(pixels@.take(k as int))),
                    decreases n - k,
                {
                    proof {
                        assert(index + count <= start + n * count) by (nonlinear_arith)
                            requires index == start + k * count, k < n, count >= 3;
                        assert(pixels@.take(k + 1).drop_last() =~= pixels@.take(k as int));
                        assert(pixels@.take(k + 1).last() == pixels@[k as int]);
                    }
                    let ghost before = self.buffer@;
                    put(&mut self.buffer, index, pixels[k]);
                    proof {
                        let prev = run_bytes(pixels@.take(k as int));
                        let pb = pixel_bytes(pixels@[k as int]);
                        assert(run_bytes(pixels@.take(k + 1)) == prev + pb);
                        assert(self.buffer@ =~= splice(old_buf, start as int, prev + pb));
                        assert((k + 1) * count == k * count + count) by (nonlinear_arith);
                    }
                    if k + 1 < n {
                        index = index + count;
                    }
                    k += 1;
                }
                assert(pixels@.take(n as int) =~= pixels@);
                Ok(())
            } else {
                Err(Error::Bound)
            }
        } else {
            Err(Error::Bound)
        }
    }

    /// Draw the top-level primitives of a surface, in order, in the stroke
    /// colour of the image's type; groups are not looked into.
    ///
    /// A text has no raster form: if the surface holds one, nothing is drawn
    /// and the error is `Error::Unsupported`. If some primitive reaches
    /// below zero or past `usize`, nothing is drawn and the error is
    /// `Error::Bound`. Otherwise every covered coordinate inside the image is
    /// painted, those outside it are passed over, and the result is how
    /// many were passed over (at most `usize::MAX`).
    pub fn write(&mut self, s: &Surface) -> (r: Result<usize, Error>)
        requires
            old(self).wf(),
        ensures
            final(self).wf(),
            final(self).spec_width() == old(self).spec_width(),
            final(self).spec_height() == old(self).spec_height(),
            final(self).format() == old(self).format(),
            final(self).spec_name() == old(self).spec_name(),
            has_text(s@) ==> r == Err::<usize, Error>(Error::Unsupported),
            !has_text(s@) && !all_ready(s@) ==> r == Err::<usize, Error>(Error::Bound),
            !has_text(s@) && all_ready(s@) ==> r == Ok::<usize, Error>(
                capped(misses(old(self).spec_width() as int, old(self).spec_height() as int, surface_coverage(s@))),
            ),
            r is Err ==> final(self)@ == old(self)@,
            r is Ok ==> final(self)@ == paint(
                old(self)@,
                old(self).format().spec_channels() as int,
                old(self).spec_width() as int,
                old(self).spec_height() as int,
                pixel_bytes(stroke(old(self).format())),
                surface_coverage(s@),
            ),
    {
        let objs = s.objects();
        let n = objs.len();
        if holds_text(objs) {
            return Err(Error::Unsupported);
        }
        if !objects_ready(objs) {
            return Err(Error::Bound);
        }
        let color = match self.pixel {
            PixelType::Rgb => Pixel::Rgb(0, 0, 0),
            PixelType::Rgba => Pixel::Rgba(0, 0, 0, 0),
        };
        let ghost old_buf = self.buffer@;
        let ghost c = self.pixel.spec_channels() as int;
        let ghost w = self.width as int;
        let ghost h = self.height as int;
        let mut missed: usize = 0;
        let mut i: usize = 0;
        while i < n
            invariant
                n == s@.len(),
                objs@ == s@,
                i <= n,
                all_ready(s@),
                !has_text(s@),
                self.wf(),
                c == self.pixel.spec_channels(),
                w == self.width,
                h == self.height,
                color == stroke(self.pixel),
                self.name@ == old(self).name@,
                self.pixel == old(self).pixel,
                self.width == old(self).width,
                self.height == old(self).height,
                old_buf == old(self)@,
                self@ == paint(old_buf, c, w, h, pixel_bytes(color), surface_coverage(s@.take(i as int))),
                missed == capped(misses(w, h, surface_coverage(s@.take(i as int)))),
            decreases n - i,
        {
            proof {
                assert(s@.take(i + 1).drop_last() =~= s@.take(i as int));
                assert(s@.take(i + 1).last() == s@[i as int]);
            }
            if let Object::Primitive(p) = &objs[i] {
                assert(s@[i as int] matches Object::Primitive(p));
                let cs = match object(p) {
                    Ok(cs) => cs,
                    Err(_) => Vec::new(),
                };
                let ghost done = surface_coverage(s@.take(i as int));
                let m = cs.len();
                let mut k: usize = 0;
                while k < m
                    invariant
                        m == cs@.len(),
                        k <= m,
                        self.wf(),
                        c == self.pixel.spec_channels(),
                        w == self.width,
                        h == self.height,
                        color == stroke(self.pixel),
                        self.name@ == old(self).name@,
                        self.pixel == old(self).pixel,
                        as_ints(cs@) == coverage(*p),
                        self@ == paint(old_buf, c, w, h, pixel_bytes(color), done + coverage(*p).take(k as int)),
                        missed == capped(misses(w, h, done + coverage(*p).take(k as int))),
                    decreases m - k,
                {
                    let q = cs[k];
                    proof {
                        let all = done + coverage(*p).take(k + 1);
                        assert(all.drop_last() =~= done + coverage(*p).take(k as int));
                        assert(coverage(*p)[k as int] == (q.0 as int, q.1 as int));
                        assert(all.last() == (q.0 as int, q.1 as int));
                    }
                    if self.pixel(color, q).is_err() {
                        missed = missed.saturating_add(1);
                    }
                    k += 1;
                }
                proof {
                    assert(coverage(*p).take(m as int) =~= coverage(*p));
                }
            }
            i += 1;
        }
        proof {
            assert(s@.take(n as int) =~= s@);
        }
        Ok(missed)
    }
}

/// Whether every pixel has as many channels as the type asks.
fn all_match(t: PixelType, ps: &[Pixel]) -> (r: bool)
    ensures
        r == forall|i: int| 0 <= i < ps@.len() ==> pixel_bytes(#[trigger] ps@[i]).len() == t.spec_channels(),
{
    let n = ps.len();
    let mut k: usize = 0;
    while k < n
        invariant
            n == ps@.len(),
            k <= n,
            forall|i: int| 0 <= i < k ==> pixel_bytes(#[trigger] ps@[i]).len() == t.spec_channels(),
        decreases n - k,
    {
        if !t.matches(&ps[k]) {
            return false;
        }
        k += 1;
    }
    true
}

/// Whether some top-level object is a text.
fn holds_text(objs: &Vec<Object>) -> (r: bool)
    ensures
        r == has_text(objs@),
{
    let n = objs.len();
    let mut i: usize = 0;
    while i < n
        invariant
            n == objs@.len(),
            i <= n,
            forall|j: int| 0 <= j < i ==> !(#[trigger] objs@[j] matches Object::Primitive(Primitive::Text(_))),
        decreases n - i,
    {
        if let Object::Primitive(Primitive::Text(_)) = &objs[i] {
            assert(objs@[i as int] matches Object::Primitive(Primitive::Text(_)));
            return true;
        }
        i += 1;
    }
    false
}

/// Whether every top-level primitive has a raster form.
fn objects_ready(objs: &Vec<Object>) -> (r: bool)
    ensures
        r == all_ready(objs@),
{
    let n = objs.len();
    let mut i: usize = 0;
    while i < n
        invariant
            n == objs@.len(),
            i <= n,
            forall|j: int| 0 <= j < i ==> (#[trigger] objs@[j] matches Object::Primitive(p) ==> raster_ready(p)),
        decreases n - i,
    {
        if let Object::Primitive(p) = &objs[i] {
            if !ready(p) {
                assert(objs@[i as int] matches Object::Primitive(p));
                return false;
            }
        }
        i += 1;
    }
    true
}

/// Write the bytes of one pixel into `buf` from index `at` on.
fn put(buf: &mut Vec<u8>, at: usize, p: Pixel)
    requires
        at + pixel_bytes(p).len() <= old(buf)@.len(),
    ensures
        final(buf)@ == splice(old(buf)@, at as int, pixel_bytes(p)),
{
    let _len = buf.len();
    assert(pixel_bytes(p).len() >= 3);
    match p {
        Pixel::Rgb(r, g, b) => {
            buf.set(at, r);
            buf.set(at + 1, g);
            buf.set(at + 2, b);
        },
        Pixel::Rgba(r, g, b, a) => {
            assert(pixel_bytes(p).len() == 4);
            buf.set(at, r);
            buf.set(at + 1, g);
            buf.set(at + 2, b);
            buf.set(at + 3, a);
        },
    }
    assert(buf@ =~= splice(old(buf)@, at as int, pixel_bytes(p)));
}

} // verus!
