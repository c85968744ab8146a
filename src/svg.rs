//! Convert from an SVG image
//!
//! The markup is read into an element tree (`Svg`, holding `Shape`s), and
//! the tree is mapped onto a `Surface`.
use crate::svg::shape::Shape;
use vstd::prelude::*;

pub mod object;
pub mod shape;

verus! {

/// An error from reading SVG markup
#[derive(Debug, Copy, Clone, PartialEq, Eq, Structural)]
pub enum Error {
    /// The markup could not be parsed
    Parse,
}

/// The root element of an SVG document.
#[derive(Debug, Clone, PartialEq)]
pub struct Svg {
    pub x: isize,
    pub y: isize,
    /// The shape elements, in document order
    pub shapes: Vec<Shape>,
}

impl Svg {
    pub fn new(x: isize, y: isize, shapes: Vec<Shape>) -> (r: Self)
        ensures
            r.x == x,
            r.y == y,
            r.shapes@ == shapes@,
    {
        Self { x, y, shapes }
    }
}

} // verus!
