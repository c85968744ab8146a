use super::Point;
use super::Translate;
use vstd::prelude::*;

verus! {

/// A bitmap image
#[derive(Debug, Clone, PartialEq)]
pub struct Bitmap {
    /// Position of the image
    pub point: Point,
    /// The image data
    pub data: Vec<u8>,
    /// Width of the image
    pub width: u32,
    /// Height of the image
    pub height: u32,
}

impl Bitmap {
    /// Create a new bitmap object
    pub fn new(point: Point, data: Vec<u8>, width: u32, height: u32) -> (r: Self)
        ensures
            r.point == point,
            r.data@ == data@,
            r.width == width,
            r.height == height,
    {
        Self { point, data, width, height }
    }
}

impl Translate for Bitmap {
    open spec fn anchor(&self) -> Point {
        self.point
    }

    open spec fn with_anchor(&self, p: Point) -> Bitmap {
        Bitmap { point: p, ..*self }
    }

    proof fn lemma_with_anchor(&self, p: Point, q: Point) {
    }

    fn point(&self) -> (r: Point) {
        self.point
    }

    fn set_point(&mut self, p: Point) {
        self.point = p;
    }
}

} // verus!
