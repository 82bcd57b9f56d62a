use vstd::prelude::*;

verus! {

/// Width of the screen in pixels.
pub const DISPLAY_WIDTH: usize = 64;
/// Height of the screen in pixels.
pub const DISPLAY_HEIGHT: usize = 32;
/// Bytes of the packed framebuffer: one bit per pixel, eight pixels per byte,
/// row by row, the most significant bit leftmost.
pub const DISPLAY_SIZE: usize = DISPLAY_WIDTH * DISPLAY_HEIGHT / 8;

/// Framebuffer column (in bytes) of the left part of a sprite row at `x`.
pub open spec fn left_column(x: u8) -> int {
    (x as int % 64) / 8
}

/// Framebuffer column (in bytes) of the right part, wrapping at the edge.
pub open spec fn right_column(x: u8) -> int {
    (left_column(x) + 1) % 8
}

/// The bits that the sprite row `byte`, drawn at `x`, puts into framebuffer
/// column `col` of its row: the row is shifted right by `x mod 8` into the
/// left column, and what falls out lands in the right column.
pub open spec fn row_part(byte: u8, x: u8, col: int) -> u8 {
    let shift = x % 8;
    if col == left_column(x) {
        byte >> shift
    } else if shift != 0 && col == right_column(x) {
        byte << ((8 - shift) as u8)
    } else {
        0
    }
}

/// The sprite row that lands on framebuffer row `row` when the sprite's top
/// is at `y`: rows wrap at the bottom edge.
pub open spec fn sprite_row(row: int, y: u8) -> int {
    (row - y as int) % 32
}

/// The bits that `sprite` (one byte per row) drawn at `(x, y)` flips in
/// framebuffer byte `b`.
pub open spec fn sprite_mask(sprite: Seq<u8>, x: u8, y: u8, b: int) -> u8 {
    let r = sprite_row(b / 8, y);
    if r < sprite.len() {
        row_part(sprite[r], x, b % 8)
    } else {
        0
    }
}

/// The framebuffer after `sprite` is XORed onto `display` at `(x, y)`.
pub open spec fn xor_sprite(display: Seq<u8>, sprite: Seq<u8>, x: u8, y: u8) -> Seq<u8> {
    Seq::new(display.len(), |b: int| display[b] ^ sprite_mask(sprite, x, y, b))
}

/// Drawing `sprite` at `(x, y)` onto `display` clears some lit pixel.
pub open spec fn collides(display: Seq<u8>, sprite: Seq<u8>, x: u8, y: u8) -> bool {
    exists|b: int|
        0 <= b < display.len() && #[trigger] (display[b] & sprite_mask(sprite, x, y, b)) != 0
}

/// The pixel at column `px`, row `py` of a packed framebuffer: 0 or 1.
pub open spec fn pixel(display: Seq<u8>, px: int, py: int) -> u8 {
    (display[py * 8 + px / 8] >> ((7 - px % 8) as u8)) & 1
}

/// Adding sprite row `idx` to the first `idx` rows changes the mask only on
/// framebuffer row `(y + idx) mod 32`, where it was empty before.
pub proof fn lemma_mask_step(sprite: Seq<u8>, x: u8, y: u8, idx: int, b: int)
    requires
        0 <= idx < sprite.len() <= 32,
        0 <= b < 256,
    ensures
        b / 8 == (y + idx) % 32 ==> sprite_mask(sprite.take(idx), x, y, b) == 0
            && sprite_mask(sprite.take(idx + 1), x, y, b) == row_part(sprite[idx], x, b % 8),
        b / 8 != (y + idx) % 32 ==> sprite_mask(sprite.take(idx + 1), x, y, b)
            == sprite_mask(sprite.take(idx), x, y, b),
{
    let r = sprite_row(b / 8, y);
    if b / 8 == (y + idx) % 32 {
        assert(r == idx);
    } else {
        assert(r != idx);
    }
}

pub proof fn lemma_xor_zero(a: u8)
    ensures
        a ^ 0 == a,
        a & 0 == 0,
{
    assert(a ^ 0 == a && a & 0 == 0) by (bit_vector);
}

} // verus!
