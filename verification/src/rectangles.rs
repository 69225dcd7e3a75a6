//! Rectangle area calculators: the same computation stated over bare
//! integers, a tuple, a struct field pair, and as methods on the struct.

use vstd::prelude::*;

verus! {

/// A rectangle given by its side lengths.
#[derive(Debug, Clone, Copy, PartialEq, Eq, Structural)]
pub struct Rectangle {
    pub width: u32,
    pub height: u32,
}

/// Area from two bare side lengths.
pub fn area_single(width: u32, height: u32) -> (r: u32)
    requires
        width * height <= u32::MAX,
    ensures
        r == width * height,
{
    let area = width * height;
    area
}

/// Area from a `(width, height)` tuple.
pub fn area_tuple(dimensions: (u32, u32)) -> (r: u32)
    requires
        dimensions.0 * dimensions.1 <= u32::MAX,
    ensures
        r == dimensions.0 * dimensions.1,
{
    let area = dimensions.0 * dimensions.1;
    area
}

/// Area of a rectangle passed by reference.
pub fn area_struct(rectangle: &Rectangle) -> (r: u32)
    requires
        rectangle.width * rectangle.height <= u32::MAX,
    ensures
        r == rectangle.width * rectangle.height,
{
    let area = rectangle.width * rectangle.height;
    area
}

impl Rectangle {
    /// Area as a method.
    pub fn area(&self) -> (r: u32)
        requires
            self.width * self.height <= u32::MAX,
        ensures
            r == self.width * self.height,
    {
        let area = self.width * self.height;
        area
    }

    /// Whether `other` fits strictly inside `self` in both dimensions.
    pub fn can_hold(&self, other: &Rectangle) -> (r: bool)
        ensures
            r == (self.width > other.width && self.height > other.height),
    {
        let result = self.width > other.width && self.height > other.height;
        result
    }
}

} // verus!
