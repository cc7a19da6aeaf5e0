use vstd::prelude::*;

use crate::pixel::rgba::PixelBuffer;

verus! {

/// Something that can draw itself into a pixel buffer and be hit by a click.
pub trait BufferElem {
    /// The element's geometry keeps every coordinate that drawing computes within `u32`.
    spec fn can_draw(&self) -> bool;

    /// Draws the element into `pixelbuffer`.
    fn add(&self, pixelbuffer: &mut PixelBuffer)
        requires
            old(pixelbuffer).wf(),
            self.can_draw(),
        ensures
            final(pixelbuffer).wf(),
            final(pixelbuffer).width == old(pixelbuffer).width,
            final(pixelbuffer).height == old(pixelbuffer).height,
    ;

    /// Whether a click at (`x`, `y`), relative to the element, hits it.
    fn click(&self, x: u32, y: u32) -> bool;
}

/// A filled rectangle standing for a text input.
pub struct InputField {
    pub startX: u32,
    pub startY: u32,
    pub width: u32,
    pub height: u32,
    pub color: [u8; 4],
}

impl InputField {
    pub fn new(startX: u32, startY: u32, width: u32, height: u32, color: [u8; 4]) -> (res: Self)
        ensures
            res.startX == startX,
            res.startY == startY,
            res.width == width,
            res.height == height,
            res.color == color,
    {
        InputField { startX, startY, width, height, color }
    }
}

impl BufferElem for InputField {
    open spec fn can_draw(&self) -> bool {
        self.startX + self.width <= u32::MAX && self.startY + self.height <= u32::MAX
    }

    /// Fills the field's rectangle with its color, clipped to the buffer.
    fn add(&self, pixelbuffer: &mut PixelBuffer)
        ensures
            forall|x: int, y: int, c: int|
                0 <= x < old(pixelbuffer).width && 0 <= y < old(pixelbuffer).height && 0 <= c < 4
                    ==> #[trigger] final(pixelbuffer).at(x, y, c) == if self.startX <= x
                    < self.startX + self.width && self.startY <= y < self.startY + self.height {
                    self.color[c]
                } else {
                    old(pixelbuffer).at(x, y, c)
                },
    {
        pixelbuffer.DrawFullRect(self.startX, self.startY, self.width, self.height, self.color);
    }

    /// A click hits the field when it falls inside its `width` x `height` extent.
    fn click(&self, x: u32, y: u32) -> (res: bool)
        ensures
            res == (x < self.width && y < self.height),
    {
        x < self.width && y < self.height
    }
}

} // verus!
