//! Pixels and decoded images, in source-content coordinate space.

use vstd::prelude::*;

verus! {

/// Source coordinates stay within this magnitude, so that translating a
/// pixel by any offset a scroll pass produces can never overflow an `i64`.
pub const COORD_LIMIT: i64 = 4_294_967_296;

/// One colored pixel. Coordinates are logical: they may exceed, or fall
/// short of, the panel, and are clipped only when they reach the frame
/// surface.
#[derive(Clone, Copy)]
pub struct Pixel<C> {
    pub x: i64,
    pub y: i64,
    pub color: C,
}

impl<C> Pixel<C> {
    /// Coordinates within the magnitude every scroll computation tolerates.
    pub open spec fn wf(self) -> bool {
        &&& -COORD_LIMIT <= self.x <= COORD_LIMIT
        &&& -COORD_LIMIT <= self.y <= COORD_LIMIT
    }
}

/// A decoded bitmap or rendered glyph run: a reported size plus the pixels
/// to draw. The width is what the content reports and is the quantity the
/// scroll passes pace themselves by; the pixels need not fill it.
pub struct Image<C> {
    pub width: u32,
    pub height: u32,
    pub pixels: Vec<Pixel<C>>,
}

impl<C> Image<C> {
    pub open spec fn wf(self) -> bool {
        forall|i: int| 0 <= i < self.pixels@.len() ==> (#[trigger] self.pixels@[i]).wf()
    }

    pub fn new(width: u32, height: u32, pixels: Vec<Pixel<C>>) -> (img: Self)
        requires
            forall|i: int| 0 <= i < pixels@.len() ==> (#[trigger] pixels@[i]).wf(),
        ensures
            img.wf(),
            img.width == width,
            img.height == height,
            img.pixels@ == pixels@,
    {
        Image { width, height, pixels }
    }

    pub fn width(&self) -> (w: u32)
        ensures
            w == self.width,
    {
        self.width
    }

    pub fn height(&self) -> (h: u32)
        ensures
            h == self.height,
    {
        self.height
    }
}

} // verus!
