//! A rectangle measured by free function and by method.

use vstd::prelude::*;

verus! {

/// An axis-aligned rectangle.
#[derive(Debug, Clone, Copy, PartialEq, Eq, Structural)]
pub struct Rectangle {
    pub width: u32,
    pub height: u32,
}

/// Area of a rectangle.
pub fn area(rectangle: &Rectangle) -> (r: u32)
    requires
        rectangle.height * rectangle.width <= u32::MAX,
    ensures
        r == rectangle.height * rectangle.width,
{
    rectangle.height * rectangle.width
}

impl Rectangle {
    /// Area of the rectangle.
    pub fn area(&self) -> (r: u32)
        requires
            self.width * self.height <= u32::MAX,
        ensures
            r == self.width * self.height,
    {
        self.width * self.height
    }
}

} // verus!
