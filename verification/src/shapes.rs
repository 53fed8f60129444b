//! Rectangles, squares, and a user record: plain data with exact
//! arithmetic contracts.

use vstd::prelude::*;

verus! {

/// An axis-aligned rectangle.
#[derive(Debug, Clone, Copy, PartialEq, Eq, Structural)]
pub struct Rectangle {
    pub width: u32,
    pub height: u32,
}

/// The area of a rectangle.
pub fn area(rect: &Rectangle) -> (r: u32)
    requires
        rect.width * rect.height <= u32::MAX,
    ensures
        r == rect.width * rect.height,
{
    rect.width * rect.height
}

/// A square, by its side length.
#[derive(Debug, Clone, Copy, PartialEq, Eq, Structural)]
pub struct Square {
    pub side: u32,
}

impl Square {
    /// The area of the square.
    pub fn area(&self) -> (r: u32)
        requires
            self.side * self.side <= u32::MAX,
        ensures
            r == self.side * self.side,
    {
        self.side * self.side
    }

    /// Whether the square has any extent.
    pub fn side(&self) -> (r: bool)
        ensures
            r == (self.side > 0),
    {
        self.side > 0
    }

    /// Whether `other` fits strictly inside `self`.
    pub fn can_hold(&self, other: &Square) -> (r: bool)
        ensures
            r == (self.side > other.side),
    {
        self.side > other.side
    }
}

/// An account record.
pub struct User {
    pub active: bool,
    pub username: String,
    pub email: String,
    pub sign_in_count: u64,
}

/// Builds a fresh, active account with one sign-in.
pub fn build_user(email: String, username: String) -> (u: User)
    ensures
        u.active,
        u.username == username,
        u.email == email,
        u.sign_in_count == 1,
{
    User { active: true, username, email, sign_in_count: 1 }
}

} // verus!
