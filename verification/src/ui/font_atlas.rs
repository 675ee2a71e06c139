//! The bitmap font the menu text is drawn with: one 8 × 8 glyph per character, sixteen to a
//! row, in a 128 × 128 single-channel atlas.

use vstd::prelude::*;
use crate::text::str_chars;

verus! {

/// The side of the square atlas, in pixels.
pub const ATLAS_SIDE: usize = 128;

/// The side of one glyph cell, in pixels.
pub const GLYPH_SIDE: usize = 8;

/// The characters the atlas holds, in cell order.
pub open spec fn atlas_chars() -> Seq<char> {
    "ABCDEFGHIJKLMNOPQRSTUVWXYZabcdefghijklmnopqrstuvwxyz0123456789 .,!?-+()[]{}:;"@
}

/// The characters the atlas holds, in cell order (see `atlas_chars`).
pub fn atlas_characters() -> (r: &'static str)
    ensures
        r@ == atlas_chars(),
{
    "ABCDEFGHIJKLMNOPQRSTUVWXYZabcdefghijklmnopqrstuvwxyz0123456789 .,!?-+()[]{}:;"
}

/// The value of pixel (lx, ly) of the glyph for `c`: a space is empty, a dot is one pixel,
/// a dash a horizontal line, a bar a vertical line, and any other character the outline of
/// a square.
pub open spec fn glyph_pixel(c: char, lx: int, ly: int) -> u8 {
    if c == ' ' {
        0
    } else if c == '.' {
        if lx == 4 && ly == 6 { 255 } else { 0 }
    } else if c == '-' {
        if ly == 4 && 1 <= lx <= 6 { 255 } else { 0 }
    } else if c == '|' {
        if lx == 4 && 1 <= ly <= 6 { 255 } else { 0 }
    } else if 1 <= lx <= 6 && 1 <= ly <= 6 && (lx == 1 || lx == 6 || ly == 1 || ly == 6) {
        255
    } else {
        0
    }
}

/// The value of atlas pixel (px, py): the glyph of the cell it lies in, or empty past the
/// last character.
pub open spec fn atlas_pixel(px: int, py: int) -> u8 {
    let i = (py / 8) * 16 + px / 8;
    if i < atlas_chars().len() {
        glyph_pixel(atlas_chars()[i], px % 8, py % 8)
    } else {
        0
    }
}

/// The glyph value of pixel (lx, ly) of the cell for `c` (see `glyph_pixel`).
fn glyph_value(c: char, lx: usize, ly: usize) -> (r: u8)
    ensures
        r == glyph_pixel(c, lx as int, ly as int),
{
    if c == ' ' {
        0
    } else if c == '.' {
        if lx == 4 && ly == 6 { 255 } else { 0 }
    } else if c == '-' {
        if ly == 4 && 1 <= lx && lx <= 6 { 255 } else { 0 }
    } else if c == '|' {
        if lx == 4 && 1 <= ly && ly <= 6 { 255 } else { 0 }
    } else if 1 <= lx && lx <= 6 && 1 <= ly && ly <= 6 && (lx == 1 || lx == 6 || ly == 1 || ly == 6) {
        255
    } else {
        0
    }
}

/// The atlas bitmap, row by row (see `atlas_pixel`).
pub fn font_atlas_bitmap() -> (r: Vec<u8>)
    ensures
        r@.len() == 128 * 128,
        forall|py: int, px: int|
            0 <= py < 128 && 0 <= px < 128 ==> #[trigger] r@[py * 128 + px] == atlas_pixel(px, py),
{
    let chars = str_chars(atlas_characters());
    let n = chars.len();
    let mut v: Vec<u8> = Vec::new();
    let mut py: usize = 0;
    while py < ATLAS_SIDE
        invariant
            chars@ == atlas_chars(),
            n == chars@.len(),
            py <= 128,
            v@.len() == py * 128,
            forall|y: int, x: int|
                0 <= y < py && 0 <= x < 128 ==> #[trigger] v@[y * 128 + x] == atlas_pixel(x, y),
        decreases 128 - py,
    {
        let mut px: usize = 0;
        while px < ATLAS_SIDE
            invariant
                chars@ == atlas_chars(),
                n == chars@.len(),
                py < 128,
                px <= 128,
                v@.len() == py * 128 + px,
                forall|y: int, x: int|
                    0 <= y < py && 0 <= x < 128 ==> #[trigger] v@[y * 128 + x] == atlas_pixel(x, y),
                forall|x: int| 0 <= x < px ==> #[trigger] v@[py * 128 + x] == atlas_pixel(x, py as int),
            decreases 128 - px,
        {
            let i = (py / GLYPH_SIDE) * 16 + px / GLYPH_SIDE;
            let value = if i < n {
                glyph_value(chars[i], px % GLYPH_SIDE, py % GLYPH_SIDE)
            } else {
                0
            };
            assert(value == atlas_pixel(px as int, py as int));
            let ghost before = v@;
            v.push(value);
            assert forall|x: int| 0 <= x < px + 1 implies #[trigger] v@[py * 128 + x] == atlas_pixel(
                x,
                py as int,
            ) by {
                if x < px {
                    assert(v@[py * 128 + x] == before[py * 128 + x]);
                }
            }
            assert forall|y: int, x: int|
                0 <= y < py && 0 <= x < 128 implies #[trigger] v@[y * 128 + x] == atlas_pixel(x, y) by {
                assert(y * 128 + x < py * 128) by (nonlinear_arith)
                    requires
                        0 <= y < py,
                        0 <= x < 128,
                ;
                assert(v@[y * 128 + x] == before[y * 128 + x]);
            }
            px = px + 1;
        }
        py = py + 1;
    }
    v
}

} // verus!
