use vstd::prelude::*;

verus! {

/// An RGBA color with one byte per channel.
#[derive(Clone, Copy, PartialEq, Eq, Structural, Debug)]
pub struct Color {
    pub red: u8,
    pub green: u8,
    pub blue: u8,
    pub alpha: u8,
}

/// The fully transparent color, every channel zero.
pub open spec fn transparent() -> Color {
    Color { red: 0, green: 0, blue: 0, alpha: 0 }
}

/// Channel addition clamped to the byte range from above.
pub open spec fn clamp_add(a: int, b: int) -> int {
    if a + b > 255 {
        255
    } else {
        a + b
    }
}

/// Channel subtraction clamped to the byte range from below.
pub open spec fn clamp_sub(a: int, b: int) -> int {
    if a - b < 0 {
        0
    } else {
        a - b
    }
}

impl Color {
    /// Builds a color from all four channels.
    pub fn from_rgba(red: u8, green: u8, blue: u8, alpha: u8) -> (c: Color)
        ensures
            c == (Color { red, green, blue, alpha }),
    {
        Color { red, green, blue, alpha }
    }

    /// Builds an opaque color from the three color channels.
    pub fn from_rgb(red: u8, green: u8, blue: u8) -> (c: Color)
        ensures
            c == (Color { red, green, blue, alpha: 255u8 }),
    {
        Color::from_rgba(red, green, blue, 255)
    }

    /// Channel-wise saturating addition.
    pub fn add(self, rhs: Color) -> (c: Color)
        ensures
            c.red == clamp_add(self.red as int, rhs.red as int),
            c.green == clamp_add(self.green as int, rhs.green as int),
            c.blue == clamp_add(self.blue as int, rhs.blue as int),
            c.alpha == clamp_add(self.alpha as int, rhs.alpha as int),
    {
        Color {
            red: sat_add_byte(self.red, rhs.red),
            green: sat_add_byte(self.green, rhs.green),
            blue: sat_add_byte(self.blue, rhs.blue),
            alpha: sat_add_byte(self.alpha, rhs.alpha),
        }
    }

    /// Channel-wise saturating subtraction.
    pub fn sub(self, rhs: Color) -> (c: Color)
        ensures
            c.red == clamp_sub(self.red as int, rhs.red as int),
            c.green == clamp_sub(self.green as int, rhs.green as int),
            c.blue == clamp_sub(self.blue as int, rhs.blue as int),
            c.alpha == clamp_sub(self.alpha as int, rhs.alpha as int),
    {
        Color {
            red: sat_sub_byte(self.red, rhs.red),
            green: sat_sub_byte(self.green, rhs.green),
            blue: sat_sub_byte(self.blue, rhs.blue),
            alpha: sat_sub_byte(self.alpha, rhs.alpha),
        }
    }
}

impl Default for Color {
    /// The default color is fully transparent.
    fn default() -> (c: Color)
        ensures
            c == transparent(),
    {
        Color { red: 0, green: 0, blue: 0, alpha: 0 }
    }
}

fn sat_add_byte(a: u8, b: u8) -> (r: u8)
    ensures
        r == clamp_add(a as int, b as int),
{
    let wide: u16 = a as u16 + b as u16;
    if wide > 255 {
        255
    } else {
        wide as u8
    }
}

fn sat_sub_byte(a: u8, b: u8) -> (r: u8)
    ensures
        r == clamp_sub(a as int, b as int),
{
    if a >= b {
        a - b
    } else {
        0
    }
}

} // verus!
