use vstd::prelude::*;

verus! {

/// A position in device pixels.
#[derive(Debug, Clone, Copy, PartialEq, Eq, Structural)]
pub struct Point {
    pub x: u8,
    pub y: u8,
}

impl Point {
    pub fn zero() -> (r: Point)
        ensures
            r.x == 0 && r.y == 0,
    {
        Point::new(0, 0)
    }

    pub fn new(x: u8, y: u8) -> (r: Point)
        ensures
            r.x == x && r.y == y,
    {
        Point { x, y }
    }

    /// The coordinates as a pair.
    pub fn to_pair(self) -> (r: (u8, u8))
        ensures
            r == (self.x, self.y),
    {
        (self.x, self.y)
    }
}

/// A width and a height in device pixels.
#[derive(Debug, Clone, Copy, PartialEq, Eq, Structural)]
pub struct Size {
    pub width: u8,
    pub height: u8,
}

impl Size {
    pub fn new(width: u8, height: u8) -> (r: Size)
        ensures
            r.width == width && r.height == height,
    {
        Size { width, height }
    }
}

/// An axis-aligned rectangle: a top-left corner and an extent.
#[derive(Debug, Clone, Copy, PartialEq, Eq, Structural)]
pub struct Rectangle {
    pub origin: Point,
    pub size: Size,
}

impl Rectangle {
    /// The far corner lies inside the 8-bit coordinate space.
    pub open spec fn fits(self) -> bool {
        self.origin.x + self.size.width <= u8::MAX && self.origin.y + self.size.height <= u8::MAX
    }

    pub fn new(origin: Point, size: Size) -> (r: Rectangle)
        ensures
            r.origin == origin && r.size == size,
    {
        Rectangle { origin, size }
    }

    pub fn start(&self) -> (r: Point)
        ensures
            r == self.origin,
    {
        self.origin
    }

    /// The corner one past the bottom-right pixel.
    pub fn end(&self) -> (r: Point)
        requires
            self.fits(),
        ensures
            r.x == self.origin.x + self.size.width,
            r.y == self.origin.y + self.size.height,
    {
        let origin = self.origin;
        let size = self.size;
        Point::new(origin.x + size.width, origin.y + size.height)
    }
}

} // verus!
