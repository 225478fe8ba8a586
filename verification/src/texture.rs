use vstd::prelude::*;

use crate::color::transparent;
use crate::color::Color;

verus! {

/// A rectangular pixel store with one RGBA color per pixel, laid out row by
/// row. The embedding shell fills it from a decoded image and reads it back
/// as raw bytes for upload to the graphics API.
pub struct Texture {
    width: usize,
    height: usize,
    pixels: Vec<Color>,
}

impl Texture {
    /// The width in pixels.
    pub closed spec fn spec_width(self) -> int {
        self.width as int
    }

    /// The height in pixels.
    pub closed spec fn spec_height(self) -> int {
        self.height as int
    }

    /// The pixels, row by row.
    pub closed spec fn spec_pixels(self) -> Seq<Color> {
        self.pixels@
    }

    /// A texture holds exactly width times height pixels.
    pub open spec fn wf(self) -> bool {
        self.spec_pixels().len() == self.spec_width() * self.spec_height()
    }

    /// The pixel at column `x` of row `y`.
    pub open spec fn pixel_at(self, x: int, y: int) -> Color {
        self.spec_pixels()[y * self.spec_width() + x]
    }

    /// A blank texture of the given size, every pixel transparent.
    pub fn new(width: usize, height: usize) -> (t: Texture)
        requires
            width * height <= usize::MAX,
        ensures
            t.wf(),
            t.spec_width() == width,
            t.spec_height() == height,
            forall|i: int| 0 <= i < width * height ==> t.spec_pixels()[i] == transparent(),
    {
        let n = width * height;
        let mut pixels: Vec<Color> = Vec::new();
        let mut i: usize = 0;
        while i < n
            invariant
                i <= n,
                i == pixels@.len(),
                forall|j: int| 0 <= j < i ==> pixels@[j] == transparent(),
            decreases n - i,
        {
            pixels.push(Color::default());
            i += 1;
        }
        Texture { width, height, pixels }
    }

    /// A texture of the given size filled from raw RGBA bytes, four bytes
    /// per pixel in row order — the shape a decoded image hands over.
    pub fn from_rgba_bytes(width: usize, height: usize, bytes: &Vec<u8>) -> (t: Texture)
        requires
            width * height <= usize::MAX,
            bytes@.len() == 4 * (width * height),
        ensures
            t.wf(),
            t.spec_width() == width,
            t.spec_height() == height,
            forall|i: int| 0 <= i < width * height ==> t.spec_pixels()[i] == (Color {
                red: bytes@[4 * i],
                green: bytes@[4 * i + 1],
                blue: bytes@[4 * i + 2],
                alpha: bytes@[4 * i + 3],
            }),
    {
        let n = width * height;
        let total = bytes.len();
        let mut pixels: Vec<Color> = Vec::new();
        let mut i: usize = 0;
        while i < n
            invariant
                i <= n,
                i == pixels@.len(),
                n == width * height,
                bytes@.len() == 4 * n,
                bytes@.len() <= usize::MAX,
                forall|j: int| 0 <= j < i ==> pixels@[j] == (Color {
                    red: bytes@[4 * j],
                    green: bytes@[4 * j + 1],
                    blue: bytes@[4 * j + 2],
                    alpha: bytes@[4 * j + 3],
                }),
            decreases n - i,
        {
            let base = 4 * i;
            pixels.push(Color::from_rgba(bytes[base], bytes[base + 1], bytes[base + 2], bytes[base + 3]));
            i += 1;
        }
        Texture { width, height, pixels }
    }

    /// The pixel at column `x` of row `y`; out-of-bounds coordinates read
    /// as the transparent color and never error.
    pub fn get_pixel(&self, x: usize, y: usize) -> (c: Color)
        requires
            self.wf(),
        ensures
            c == if x < self.spec_width() && y < self.spec_height() {
                self.pixel_at(x as int, y as int)
            } else {
                transparent()
            },
    {
        if x < self.width && y < self.height {
            let len = self.pixels.len();
            proof {
                assert(y * self.spec_width() + x < self.spec_width() * self.spec_height())
                    by (nonlinear_arith)
                    requires
                        0 <= x < self.spec_width(),
                        0 <= y < self.spec_height(),
                ;
                assert(y * self.spec_width() + x < len);
            }
            self.pixels[y * self.width + x]
        } else {
            Color::default()
        }
    }

    /// Overwrites the pixel at column `x` of row `y`; out-of-bounds
    /// coordinates change nothing.
    pub fn set_pixel(&mut self, x: usize, y: usize, color: Color)
        requires
            old(self).wf(),
        ensures
            final(self).wf(),
            final(self).spec_width() == old(self).spec_width(),
            final(self).spec_height() == old(self).spec_height(),
            final(self).spec_pixels() == if x < old(self).spec_width() && y < old(self).spec_height() {
                old(self).spec_pixels().update(y * old(self).spec_width() + x, color)
            } else {
                old(self).spec_pixels()
            },
    {
        if x < self.width && y < self.height {
            let len = self.pixels.len();
            proof {
                assert(y * self.spec_width() + x < self.spec_width() * self.spec_height())
                    by (nonlinear_arith)
                    requires
                        0 <= x < self.spec_width(),
                        0 <= y < self.spec_height(),
                ;
                assert(y * self.spec_width() + x < len);
            }
            self.pixels.set(y * self.width + x, color);
        }
    }

    /// The pixels flattened to raw RGBA bytes, four bytes per pixel in row
    /// order — the shape the graphics API consumes on upload.
    pub fn to_rgba_bytes(&self) -> (bytes: Vec<u8>)
        requires
            4 * self.spec_pixels().len() <= usize::MAX,
        ensures
            bytes@.len() == 4 * self.spec_pixels().len(),
            forall|i: int| 0 <= i < self.spec_pixels().len() ==> {
                &&& bytes@[4 * i] == self.spec_pixels()[i].red
                &&& bytes@[4 * i + 1] == self.spec_pixels()[i].green
                &&& bytes@[4 * i + 2] == self.spec_pixels()[i].blue
                &&& bytes@[4 * i + 3] == self.spec_pixels()[i].alpha
            },
    {
        let n = self.pixels.len();
        let mut bytes: Vec<u8> = Vec::new();
        let mut i: usize = 0;
        while i < n
            invariant
                i <= n,
                n == self.spec_pixels().len(),
                4 * n <= usize::MAX,
                bytes@.len() == 4 * i,
                forall|j: int| 0 <= j < i ==> {
                    &&& bytes@[4 * j] == self.spec_pixels()[j].red
                    &&& bytes@[4 * j + 1] == self.spec_pixels()[j].green
                    &&& bytes@[4 * j + 2] == self.spec_pixels()[j].blue
                    &&& bytes@[4 * j + 3] == self.spec_pixels()[j].alpha
                },
            decreases n - i,
        {
            let c = self.pixels[i];
            bytes.push(c.red);
            bytes.push(c.green);
            bytes.push(c.blue);
            bytes.push(c.alpha);
            i += 1;
        }
        bytes
    }

    /// The width in pixels.
    pub fn width(&self) -> (w: usize)
        ensures
            w == self.spec_width(),
    {
        self.width
    }

    /// The height in pixels.
    pub fn height(&self) -> (h: usize)
        ensures
            h == self.spec_height(),
    {
        self.height
    }
}

} // verus!
