//! Blocks of the tower as the rules see them: a colour and a movement. Their
//! positions and sizes are floats and stay with the frontend.
use vstd::prelude::*;
use crate::types::Movement;

verus! {

/// An RGBA colour, 8 bits per channel.
#[derive(Clone, Copy, PartialEq, Eq, Structural, Debug)]
pub struct Color {
    pub r: u8,
    pub g: u8,
    pub b: u8,
    pub a: u8,
}

impl Color {
    pub fn new(r: u8, g: u8, b: u8, a: u8) -> (c: Color)
        ensures
            c == (Color { r, g, b, a }),
    {
        Color { r, g, b, a }
    }

    /// The CSS colour `blueviolet`, `#8a2be2`, opaque.
    pub fn blueviolet() -> (c: Color)
        ensures
            c == (Color { r: 138, g: 43, b: 226, a: 255 }),
    {
        Color { r: 138, g: 43, b: 226, a: 255 }
    }
}

/// One block of the tower.
#[derive(Clone, Copy, PartialEq, Eq, Structural, Debug)]
pub struct Block {
    pub color: Color,
    pub movement: Movement,
}

} // verus!
