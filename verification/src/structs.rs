//! Struct exercises: a user account, a rectangle with its methods,
//! and a small record of a house on the market.

use vstd::prelude::*;

verus! {

/// An account holder.
#[derive(Debug)]
pub struct User {
    pub username: String,
    pub email: String,
    pub active: bool,
    pub sign_in_count: u64,
}

/// Builds an active first-time user.
pub fn build_user(username: String, email: String) -> (r: User)
    ensures
        r.username == username,
        r.email == email,
        r.active == true,
        r.sign_in_count == 1,
{
    User { username, email, active: true, sign_in_count: 1 }
}

/// An axis-aligned rectangle.
#[derive(Debug, Clone, Copy, PartialEq, Eq, Structural)]
pub struct Rectangle {
    pub width: u32,
    pub height: u32,
}

impl Rectangle {
    /// Area of the rectangle.
    pub fn area(&self) -> (r: u32)
        requires
            self.width * self.height <= u32::MAX,
        ensures
            r == self.width * self.height,
    {
        self.width * self.height
    }

    /// Can `other` lie strictly inside this rectangle?
    pub fn can_hold(&self, other: &Rectangle) -> (r: bool)
        ensures
            r == (self.width > other.width && self.height > other.height),
    {
        self.width > other.width && self.height > other.height
    }

    /// Consumes the rectangle and yields the largest square that fits
    /// in it.
    pub fn into_square(self) -> (r: Rectangle)
        ensures
            r.width == r.height,
            r.width == (if self.width <= self.height {
                self.width
            } else {
                self.height
            }),
    {
        let size = if self.width <= self.height {
            self.width
        } else {
            self.height
        };
        Rectangle { width: size, height: size }
    }

    /// Changes the width in place.
    pub fn set_width(&mut self, width: u32)
        ensures
            final(self).width == width,
            final(self).height == old(self).height,
    {
        self.width = width;
    }

    /// A square of the given side.
    pub fn square(size: u32) -> (r: Rectangle)
        ensures
            r.width == size,
            r.height == size,
    {
        Rectangle { width: size, height: size }
    }
}

/// A value wrapped for re-export.
#[derive(Debug, Clone, Copy, PartialEq, Eq, Structural)]
pub struct MyType {
    pub value: i32,
}

/// A plain yes-or-no answer.
#[derive(Debug, Clone, Copy, PartialEq, Eq, Structural)]
pub enum YesNo {
    YES,
    NO,
}

/// One house on the market.
#[derive(Debug)]
pub struct HousePrice {
    pub price: u32,
    pub area: String,
    pub bed_rooms: u32,
    pub main_road: YesNo,
}

} // verus!
