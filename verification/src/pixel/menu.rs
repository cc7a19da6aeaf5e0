// The drawing of the window's menu bar: a white band of the menu's height, then, on its right,
// the minimize bar, the full-screen square and the close cross, in black.
use vstd::prelude::*;

use crate::pixel::rgba::{on_border, on_cross, PixelBuffer};

verus! {

/// The width of the drawing of each menu button: the menu height less 30.
pub open spec fn glyph(menu_h: int) -> int {
    menu_h - 30
}

/// Left edge of the minimize bar.
pub open spec fn minimize_x(width: int, menu_h: int, marge: int) -> int {
    width - 3 * menu_h - 2 * marge + 15
}

/// Left edge of the full-screen square.
pub open spec fn fullscreen_x(width: int, menu_h: int, marge: int) -> int {
    width - 2 * menu_h - marge + 15
}

/// Left edge of the close cross.
pub open spec fn close_x(width: int, menu_h: int) -> int {
    width - menu_h + 15
}

/// The menu geometry fits the arithmetic of the drawing and the preconditions of the cross.
pub open spec fn menu_fits(width: int, menu_h: int, marge: int) -> bool {
    let g = glyph(menu_h);
    &&& menu_h >= 30
    &&& width >= 3 * menu_h + 2 * marge
    &&& width + 15 <= u32::MAX
    &&& g + 15 <= u32::MAX
    &&& g + g <= 0x8000_0001
}

/// The square where the icon goes in the menu bar: `menu_h - 20` pixels wide, its top-left
/// corner at the same offset on both axes, centering it in the band's height.
pub fn icon_area(menu_h: u32) -> (res: (u32, u32))
    requires
        menu_h >= 20,
    ensures
        res.0 == menu_h - 20,
        res.1 == (menu_h - (menu_h - 20)) / 2,
        res.1 == 10,
{
    let side: u32 = menu_h - 20;
    (side, (menu_h - side) / 2)
}

impl PixelBuffer {
    /// Gives the buffer the window's size (keeping the pixels the old and new sizes share, the
    /// others zero) and paints the menu band, the first `menu_h` rows, in opaque white.
    pub fn draw_menu_band(&mut self, width: u32, height: u32, menu_h: u32)
        requires
            old(self).wf(),
            width * height * 4 <= u32::MAX,
        ensures
            final(self).wf(),
            final(self).width == width,
            final(self).height == height,
            forall|x: int, y: int, c: int|
                0 <= x < width && 0 <= y < height && 0 <= c < 4 ==> #[trigger] final(self).at(x, y, c)
                    == if y < menu_h {
                    255u8
                } else if x < old(self).width && y < old(self).height {
                    old(self).at(x, y, c)
                } else {
                    0u8
                },
    {
        let ghost start = *self;
        self.SetSize(width, height);
        let ghost resized = *self;
        self.DrawFullRect(0, 0, width, menu_h, [255, 255, 255, 255]);
        assert forall|x: int, y: int, c: int|
            0 <= x < width && 0 <= y < height && 0 <= c < 4 implies #[trigger] self.at(x, y, c)
                == if y < menu_h {
                255u8
            } else if x < start.width && y < start.height {
                start.at(x, y, c)
            } else {
                0u8
            } by {
            assert(resized.at(x, y, c) == if x < start.width && y < start.height {
                start.at(x, y, c)
            } else {
                0u8
            });
        }
    }

    /// Draws the buttons of the menu bar of a window `width` pixels wide whose menu is `menu_h`
    /// high, the buttons `marge` apart: the minimize bar (4 pixels high, centered in the menu
    /// height), then the border of the full-screen square (2 pixels thick), then the close cross
    /// (3 pixels thick), all in opaque black.
    pub fn draw_menu_buttons(&mut self, width: u32, menu_h: u32, marge: u32)
        requires
            old(self).wf(),
            menu_fits(width as int, menu_h as int, marge as int),
        ensures
            final(self).wf(),
            final(self).width == old(self).width,
            final(self).height == old(self).height,
            forall|x: int, y: int, c: int|
                0 <= x < old(self).width && 0 <= y < old(self).height && 0 <= c < 4
                    ==> #[trigger] final(self).at(x, y, c) == if {
                    let sx = close_x(width as int, menu_h as int);
                    let g = glyph(menu_h as int);
                    sx <= x < sx + g && 15 <= y < 15 + g && on_cross(g, 3, x - sx, y - 15)
                } || on_border(
                    old(self).width as int,
                    old(self).height as int,
                    fullscreen_x(width as int, menu_h as int, marge as int),
                    15,
                    glyph(menu_h as int),
                    glyph(menu_h as int),
                    2,
                    2,
                    2,
                    2,
                    x,
                    y,
                ) || {
                    let sx = minimize_x(width as int, menu_h as int, marge as int);
                    sx <= x < sx + glyph(menu_h as int) && (menu_h - 4) / 2 <= y < (menu_h - 4) / 2
                        + 4
                } {
                    if c == 3 {
                        255u8
                    } else {
                        0u8
                    }
                } else {
                    old(self).at(x, y, c)
                },
    {
        let ghost start = *self;
        let black: [u8; 4] = [0, 0, 0, 255];
        let g: u32 = menu_h - 30;
        let offset: u32 = (menu_h - (menu_h - 30)) / 2;
        assert(offset == 15);
        self.DrawFullRect(width - (menu_h * 3) - (marge * 2) + offset, (menu_h - 4) / 2, g, 4, black);
        let ghost after_bar = *self;
        self.DrawBorder(width - (menu_h * 2) - marge + offset, offset, g, g, 2, 2, 2, 2, black);
        let ghost after_border = *self;
        self.DrawCross(width - menu_h + offset, offset, g, g, 3, black);
        assert forall|x: int, y: int, c: int|
            0 <= x < start.width && 0 <= y < start.height && 0 <= c < 4 implies #[trigger] self.at(
                x,
                y,
                c,
            ) == if {
                let sx = close_x(width as int, menu_h as int);
                sx <= x < sx + g && 15 <= y < 15 + g && on_cross(g as int, 3, x - sx, y - 15)
            } || on_border(
                start.width as int,
                start.height as int,
                fullscreen_x(width as int, menu_h as int, marge as int),
                15,
                g as int,
                g as int,
                2,
                2,
                2,
                2,
                x,
                y,
            ) || {
                let sx = minimize_x(width as int, menu_h as int, marge as int);
                sx <= x < sx + g && (menu_h - 4) / 2 <= y < (menu_h - 4) / 2 + 4
            } {
                if c == 3 {
                    255u8
                } else {
                    0u8
                }
            } else {
                start.at(x, y, c)
            } by {
            assert(after_border.at(x, y, c) == if on_border(
                start.width as int,
                start.height as int,
                fullscreen_x(width as int, menu_h as int, marge as int),
                15,
                g as int,
                g as int,
                2,
                2,
                2,
                2,
                x,
                y,
            ) {
                black[c]
            } else {
                after_bar.at(x, y, c)
            });
            assert(after_bar.at(x, y, c) == if minimize_x(width as int, menu_h as int, marge as int)
                <= x < minimize_x(width as int, menu_h as int, marge as int) + g && (menu_h - 4) / 2
                <= y < (menu_h - 4) / 2 + 4 {
                black[c]
            } else {
                start.at(x, y, c)
            });
        }
    }

    /// The buffer of a new window: filled with purple (150, 0, 100), with a red 50 x 50 square
    /// in its center.
    pub fn window_start(width: u32, height: u32) -> (res: PixelBuffer)
        requires
            width * height * 4 <= u32::MAX,
        ensures
            res.wf(),
            res.width == width,
            res.height == height,
            forall|x: int, y: int, c: int|
                0 <= x < width && 0 <= y < height && 0 <= c < 4 ==> #[trigger] res.at(x, y, c) == if {
                    let sx = crate::pixel::rgba::center_start(width as int, 50);
                    let sy = crate::pixel::rgba::center_start(height as int, 50);
                    sx <= x < sx + 50 && sy <= y < sy + 50
                } {
                    [255u8, 0u8, 0u8, 255u8][c]
                } else {
                    [150u8, 0u8, 100u8, 255u8][c]
                },
    {
        let mut buffer: PixelBuffer = PixelBuffer::new(width, height);
        buffer.FillAll([150, 0, 100, 255]);
        let ghost filled = buffer;
        buffer.DrawCenterFullSquare(50, [255, 0, 0, 255]);
        assert forall|x: int, y: int, c: int|
            0 <= x < width && 0 <= y < height && 0 <= c < 4 implies #[trigger] buffer.at(x, y, c) == if {
                let sx = crate::pixel::rgba::center_start(width as int, 50);
                let sy = crate::pixel::rgba::center_start(height as int, 50);
                sx <= x < sx + 50 && sy <= y < sy + 50
            } {
                [255u8, 0u8, 0u8, 255u8][c]
            } else {
                [150u8, 0u8, 100u8, 255u8][c]
            } by {
            assert(filled.at(x, y, c) == [150u8, 0u8, 100u8, 255u8][c]);
        }
        buffer
    }
}

} // verus!
