//! Whole pixels: room for buttons and areas to update.

use vstd::prelude::*;

verus! {

/// The space between two buttons.
pub const BUTTON_SPACING_PX: i32 = 16;

/// The radius of the corners of a button.
pub const BUTTON_RADIUS_PX: u16 = 8;

/// `n` as a signed 32-bit number.
pub open spec fn wrapped_i32(n: int) -> int {
    (n + 0x8000_0000) % 0x1_0000_0000 - 0x8000_0000
}

/// `n` as an unsigned 16-bit number.
pub open spec fn wrapped_u16(n: int) -> int {
    n % 0x1_0000
}

/// The pixels that `count` buttons leave between them.
pub open spec fn spaces(count: u32) -> int {
    if count == 0 {
        0
    } else {
        BUTTON_SPACING_PX * (count - 1)
    }
}

/// The pixels that are left for buttons, as a signed 32-bit number.
pub open spec fn room(width: i32, count: u32) -> int {
    wrapped_i32(width - spaces(count))
}

/// The pixels that are left for `count` buttons themselves on a bar of that
/// width, as a signed 32-bit number.
pub fn room_for_buttons(width: i32, count: u32) -> (r: i32)
    ensures
        r == room(width, count),
{
    let between: i64 = if count == 0 {
        0
    } else {
        BUTTON_SPACING_PX as i64 * (count as i64 - 1)
    };
    let left: i64 = width as i64 - between;
    // A multiple of 2^32 that makes the sum positive.
    let shifted: u64 = (left + 0x8000_0000 + 0x20_0000_0000) as u64;
    let low: u64 = shifted % 0x1_0000_0000;
    proof {
        assert(shifted == left + 0x8000_0000 + 32 * 0x1_0000_0000);
        assert(low == (left + 0x8000_0000) % 0x1_0000_0000);
    }
    (low as i64 - 0x8000_0000) as i32
}

/// An area of the frame buffer.
#[derive(Clone, Copy, PartialEq, Eq, Structural, Debug)]
pub struct Clip {
    pub x1: u16,
    pub y1: u16,
    pub x2: u16,
    pub y2: u16,
}

/// The area of the whole bar.
pub open spec fn whole_bar(width: u16, height: u16) -> Clip {
    Clip { x1: 0, y1: 0, x2: height, y2: width }
}

/// The area of the whole bar. The frame buffer stands upright: its x axis runs
/// across the bar.
pub fn full_clip(width: u16, height: u16) -> (r: Clip)
    ensures
        r == whole_bar(width, height),
{
    Clip { x1: 0, y1: 0, x2: height, y2: width }
}

/// The area of buttons, with sides as unsigned 16-bit numbers.
pub open spec fn buttons_area(
    height: u16,
    bottom: u16,
    top: u16,
    left: u16,
    width: u16,
    span: u32,
) -> Clip {
    Clip {
        x1: wrapped_u16(height - top - BUTTON_RADIUS_PX) as u16,
        y1: left,
        x2: wrapped_u16(height - bottom + BUTTON_RADIUS_PX) as u16,
        y2: wrapped_u16(left + width * span) as u16,
    }
}

/// The area of `span` buttons from `left` on, each `width` wide, on a bar of
/// that height. Their boxes reach from `bottom` to `top`, and their corners
/// beyond that.
pub fn button_clip(height: u16, bottom: u16, top: u16, left: u16, width: u16, span: u32) -> (r:
    Clip)
    ensures
        r == buttons_area(height, bottom, top, left, width, span),
{
    let h: u32 = height as u32;
    let x1: u32 = (h + 0x2_0000 - top as u32 - BUTTON_RADIUS_PX as u32) % 0x1_0000;
    let x2: u32 = (h + 0x1_0000 - bottom as u32 + BUTTON_RADIUS_PX as u32) % 0x1_0000;
    assert(width * span <= 0xffff * 0xffff_ffff) by (nonlinear_arith)
        requires
            width <= 0xffff,
            span <= 0xffff_ffff,
    ;
    assert(width * span >= 0) by (nonlinear_arith)
        requires
            width >= 0,
            span >= 0,
    ;
    let y2: u64 = (left as u64 + width as u64 * span as u64) % 0x1_0000;
    Clip { x1: x1 as u16, y1: left, x2: x2 as u16, y2: y2 as u16 }
}

/// Buttons and the 16 pixels between two of them fill the bar, as far as 32 bits
/// can tell.
pub proof fn buttons_and_spaces_fill_the_bar(width: i32, count: u32)
    ensures
        count >= 1 ==> (room(width, count) + 16 * (count - 1) - width) % 0x1_0000_0000 == 0,
        count >= 1 && width - 16 * (count - 1) >= -0x8000_0000 ==> room(width, count) + 16 * (count
            - 1) == width,
        count <= 1 ==> room(width, count) == width,
        -0x8000_0000 <= room(width, count) < 0x8000_0000,
{
}

/// The whole bar is as high as the frame buffer is wide and as wide as that is
/// high.
pub proof fn the_whole_bar_is_covered(width: u16, height: u16)
    ensures
        ({
            let c = whole_bar(width, height);
            &&& c.x1 == 0 && c.y1 == 0
            &&& c.x2 - c.x1 == height
            &&& c.y2 - c.y1 == width
        }),
{
}

/// The area of buttons lies along the bar from their left edge on, so many
/// widths long, and across it between their boxes with eight pixels more on each
/// side.
pub proof fn buttons_are_covered(
    height: u16,
    bottom: u16,
    top: u16,
    left: u16,
    width: u16,
    span: u32,
)
    requires
        bottom <= top,
        top + 8 <= height,
        height - bottom + 8 <= 0xffff,
        left + width * span <= 0xffff,
    ensures
        ({
            let c = buttons_area(height, bottom, top, left, width, span);
            &&& c.y1 == left
            &&& c.y2 - c.y1 == width * span
            &&& c.x1 + top + 8 == height
            &&& c.x2 + bottom == height + 8
            &&& c.x2 - c.x1 == top - bottom + 16
        }),
{
    assert(width * span >= 0) by (nonlinear_arith)
        requires
            width >= 0,
            span >= 0,
    ;
}

} // verus!
