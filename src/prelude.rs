//! Geometry in 16-bit device pixels, for displays wider or taller than 255 pixels.
use vstd::prelude::*;

verus! {

/// A position: `x` then `y`.
#[derive(Debug, Clone, Copy, PartialEq, Eq, Structural)]
pub struct Point(pub u16, pub u16);

impl Point {
    pub fn x(&self) -> (r: u16)
        ensures
            r == self.0,
    {
        self.0
    }

    pub fn y(&self) -> (r: u16)
        ensures
            r == self.1,
    {
        self.1
    }

    pub fn from_pair(point: (u16, u16)) -> (r: Point)
        ensures
            r == Point(point.0, point.1),
    {
        Point(point.0, point.1)
    }
}

/// An extent: width then height.
#[derive(Debug, Clone, Copy, PartialEq, Eq, Structural)]
pub struct Size(pub u16, pub u16);

impl Size {
    pub fn width(&self) -> (r: u16)
        ensures
            r == self.0,
    {
        self.0
    }

    pub fn height(&self) -> (r: u16)
        ensures
            r == self.1,
    {
        self.1
    }

    pub fn from_pair(size: (u16, u16)) -> (r: Size)
        ensures
            r == Size(size.0, size.1),
    {
        Size(size.0, size.1)
    }
}

/// A rectangle: top-left corner and extent.
#[derive(Debug, Clone, Copy, PartialEq, Eq, Structural)]
pub struct Rect(pub Point, pub Size);

impl Rect {
    pub fn new(x: u16, y: u16, width: u16, height: u16) -> (r: Rect)
        ensures
            r == Rect(Point(x, y), Size(width, height)),
    {
        Rect(Point(x, y), Size(width, height))
    }

    pub fn origin(&self) -> (r: Point)
        ensures
            r == self.0,
    {
        self.0
    }

    pub fn size(&self) -> (r: Size)
        ensures
            r == self.1,
    {
        self.1
    }

    pub fn from_tuple(rect: (u16, u16, u16, u16)) -> (r: Rect)
        ensures
            r == Rect(Point(rect.0, rect.1), Size(rect.2, rect.3)),
    {
        Rect(Point::from_pair((rect.0, rect.1)), Size::from_pair((rect.2, rect.3)))
    }
}

} // verus!
