//! The shape elements of an SVG document.
use vstd::prelude::*;

verus! {

/// A `line` element.
#[derive(Debug, Clone, Copy, PartialEq, Eq, Hash, Structural)]
pub struct Line {
    pub x1: isize,
    pub y1: isize,
    pub x2: isize,
    pub y2: isize,
}

impl Line {
    pub fn new(x1: isize, y1: isize, x2: isize, y2: isize) -> (r: Self)
        ensures
            r == (Line { x1, y1, x2, y2 }),
    {
        Self { x1, y1, x2, y2 }
    }
}

/// A `polyline` element, its points as written.
#[derive(Debug, Clone, PartialEq, Eq, Hash)]
pub struct PolyLine {
    pub points: String,
}

/// A `rect` element; a missing `x` or `y` is `None`.
#[derive(Debug, Clone, Copy, PartialEq, Eq, Hash, Structural)]
pub struct Rect {
    pub x: Option<isize>,
    pub y: Option<isize>,
    pub rx: Option<isize>,
    pub ry: Option<isize>,
    pub width: usize,
    pub height: usize,
}

impl Rect {
    pub fn new(
        x: Option<isize>,
        y: Option<isize>,
        rx: Option<isize>,
        ry: Option<isize>,
        width: usize,
        height: usize,
    ) -> (r: Self)
        ensures
            r == (Rect { x, y, rx, ry, width, height }),
    {
        Self { x, y, rx, ry, width, height }
    }
}

/// A `text` element: its position and its content.
#[derive(Debug, Clone, PartialEq, Eq, Hash)]
pub struct Text {
    pub x: isize,
    pub y: isize,
    pub text: String,
}

impl Text {
    pub fn new(x: isize, y: isize, text: &str) -> (r: Self)
        ensures
            r.x == x,
            r.y == y,
            r.text@ == text@,
    {
        Self { x, y, text: text.to_owned() }
    }
}

/// One shape element of an SVG document.
#[derive(Debug, Clone, PartialEq)]
pub enum Shape {
    Line(Line),
    Rect(Rect),
    Text(Text),
}

} // verus!
