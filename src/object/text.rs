use super::Point;
use super::Translate;
use vstd::prelude::*;

verus! {

/// Standard font size
pub const SIZE: u32 = 10;

/// A simple text object
#[derive(Debug, Clone, PartialEq, Hash)]
pub struct Text {
    /// Position of the text
    pub point: Point,
    /// The actual text string
    pub text: String,
    /// The font size
    pub size: u32,
}

impl Text {
    /// A text at `point` in the standard font size.
    pub fn new(point: Point, text: &str) -> (r: Self)
        ensures
            r.point == point,
            r.text@ == text@,
            r.size == SIZE,
    {
        Self { point, text: text.to_owned(), size: SIZE }
    }
}

impl Translate for Text {
    open spec fn anchor(&self) -> Point {
        self.point
    }

    open spec fn with_anchor(&self, p: Point) -> Text {
        Text { point: p, ..*self }
    }

    proof fn lemma_with_anchor(&self, p: Point, q: Point) {
    }

    fn point(&self) -> (r: Point) {
        self.point
    }

    fn set_point(&mut self, p: Point) {
        self.point = p;
    }
}

} // verus!
