//! The display: what drawing a sprite does to it, pixel by pixel, and the squares that
//! show it in a window.

use vstd::prelude::*;
use crate::constants::{DISPLAY_HEIGHT, DISPLAY_SIZE, DISPLAY_WIDTH, MEMORY_SIZE};

verus! {

/// A sprite to draw: where its rows lie in memory, how many they are, and the pixel
/// at which its top-left corner goes.
pub struct Sprite {
    /// Address of the first row; each row is one byte, its highest bit leftmost.
    pub address: u16,
    /// Number of rows.
    pub rows: u8,
    /// Column of the top-left corner, below the display's width.
    pub left: u8,
    /// Row of the top-left corner, below the display's height.
    pub top: u8,
}

/// Whether the bit for column `column` of a sprite row is set; column 0 is the
/// highest bit.
pub open spec fn sprite_bit(row: u8, column: u8) -> bool {
    row & (0x80u8 >> column) != 0
}

/// How many columns to the right of `left` the pixel `pixel` lies, going round the
/// right edge of the display.
pub open spec fn column_offset(pixel: int, left: u8) -> int {
    (pixel % (DISPLAY_WIDTH as int) - left + DISPLAY_WIDTH) % (DISPLAY_WIDTH as int)
}

/// How many rows below `top` the pixel `pixel` lies, going round the bottom edge of
/// the display.
pub open spec fn row_offset(pixel: int, top: u8) -> int {
    (pixel / (DISPLAY_WIDTH as int) - top + DISPLAY_HEIGHT) % (DISPLAY_HEIGHT as int)
}

/// The pixel that the sprite's bit in row `row` and column `column` falls on.
pub open spec fn sprite_pixel(sprite: Sprite, row: int, column: int) -> int {
    (sprite.left + column) % (DISPLAY_WIDTH as int) + (sprite.top + row) % (DISPLAY_HEIGHT as int)
        * DISPLAY_WIDTH
}

impl Sprite {
    /// The corner lies on the display and the sprite has at most fifteen rows.
    pub open spec fn well_formed(self) -> bool {
        &&& self.left < DISPLAY_WIDTH
        &&& self.top < DISPLAY_HEIGHT
        &&& self.rows < 16
    }

    /// Every row of the sprite lies inside memory.
    pub open spec fn in_memory(self) -> bool {
        self.rows == 0 || self.address + self.rows <= MEMORY_SIZE
    }

    /// Whether the sprite has a set bit on the pixel `pixel`.
    pub open spec fn covers(self, memory: Seq<u8>, pixel: int) -> bool {
        let column = column_offset(pixel, self.left);
        let row = row_offset(pixel, self.top);
        &&& column < 8
        &&& row < self.rows
        &&& sprite_bit(memory[self.address + row], column as u8)
    }

    /// Whether the part of the sprite that is drawn before the bit in row `row` and
    /// column `column`, going through the rows from the top and through each row from
    /// the left, has a set bit on the pixel `pixel`.
    pub open spec fn covers_before(self, memory: Seq<u8>, row: int, column: int, pixel: int) -> bool {
        let c = column_offset(pixel, self.left);
        let r = row_offset(pixel, self.top);
        &&& c < 8
        &&& (r < row || (r == row && c < column))
        &&& sprite_bit(memory[self.address + r], c as u8)
    }

    /// The display after the sprite was drawn: each pixel under a set bit is toggled.
    pub open spec fn drawn(self, memory: Seq<u8>, display: Seq<bool>) -> Seq<bool> {
        Seq::new(DISPLAY_SIZE as nat, |pixel: int| display[pixel] != self.covers(memory, pixel))
    }

    /// Whether drawing the sprite turns a lit pixel off.
    pub open spec fn collides(self, memory: Seq<u8>, display: Seq<bool>) -> bool {
        exists|pixel: int|
            0 <= pixel < DISPLAY_SIZE && display[pixel] && #[trigger] self.covers(memory, pixel)
    }
}

/// A column lies `offset` columns to the right of `left`, going round the edge, exactly
/// if it is the column reached from `left` in `offset` steps.
proof fn lemma_column_offset(column: int, left: int, offset: int)
    requires
        0 <= column < DISPLAY_WIDTH,
        0 <= left < DISPLAY_WIDTH,
        0 <= offset < DISPLAY_WIDTH,
    ensures
        (column - left + DISPLAY_WIDTH) % (DISPLAY_WIDTH as int) == offset <==> column == (left
            + offset) % (DISPLAY_WIDTH as int),
{
}

/// A row lies `offset` rows below `top`, going round the edge, exactly if it is the row
/// reached from `top` in `offset` steps.
proof fn lemma_row_offset(row: int, top: int, offset: int)
    requires
        0 <= row < DISPLAY_HEIGHT,
        0 <= top < DISPLAY_HEIGHT,
        0 <= offset < DISPLAY_HEIGHT,
    ensures
        (row - top + DISPLAY_HEIGHT) % (DISPLAY_HEIGHT as int) == offset <==> row == (top + offset)
            % (DISPLAY_HEIGHT as int),
{
}

/// The bit in row `row` and column `column` of a sprite falls on one pixel of the
/// display, and no other bit of the sprite falls on that pixel.
proof fn lemma_sprite_pixel(sprite: Sprite, row: int, column: int)
    requires
        sprite.well_formed(),
        0 <= row < 16,
        0 <= column < 8,
    ensures
        0 <= sprite_pixel(sprite, row, column) < DISPLAY_SIZE,
        column_offset(sprite_pixel(sprite, row, column), sprite.left) == column,
        row_offset(sprite_pixel(sprite, row, column), sprite.top) == row,
        forall|pixel: int|
            0 <= pixel < DISPLAY_SIZE && column_offset(pixel, sprite.left) == column && row_offset(
                pixel,
                sprite.top,
            ) == row ==> pixel == sprite_pixel(sprite, row, column),
{
    let target_column = (sprite.left + column) % (DISPLAY_WIDTH as int);
    let target_row = (sprite.top + row) % (DISPLAY_HEIGHT as int);
    let target = sprite_pixel(sprite, row, column);
    assert(target == target_column + target_row * DISPLAY_WIDTH);
    assert(target % (DISPLAY_WIDTH as int) == target_column);
    assert(target / (DISPLAY_WIDTH as int) == target_row);
    lemma_column_offset(target_column, sprite.left as int, column);
    lemma_row_offset(target_row, sprite.top as int, row);
    assert forall|pixel: int|
        0 <= pixel < DISPLAY_SIZE && column_offset(pixel, sprite.left) == column && row_offset(
            pixel,
            sprite.top,
        ) == row implies pixel == target by {
        lemma_column_offset(pixel % (DISPLAY_WIDTH as int), sprite.left as int, column);
        lemma_row_offset(pixel / (DISPLAY_WIDTH as int), sprite.top as int, row);
    }
}

/// Toggling the pixel under one set bit extends the part of the sprite that is drawn by
/// that bit.
proof fn lemma_draw_bit(
    sprite: Sprite,
    memory: Seq<u8>,
    before: Seq<bool>,
    current: Seq<bool>,
    row: int,
    column: int,
    flipped: bool,
)
    requires
        sprite.well_formed(),
        0 <= row < sprite.rows,
        0 <= column < 8,
        before.len() == DISPLAY_SIZE,
        current.len() == DISPLAY_SIZE,
        forall|pixel: int|
            0 <= pixel < DISPLAY_SIZE ==> current[pixel] == (before[pixel] != sprite.covers_before(
                memory,
                row,
                column,
                pixel,
            )),
        flipped <==> exists|pixel: int|
            0 <= pixel < DISPLAY_SIZE && before[pixel] && #[trigger] sprite.covers_before(
                memory,
                row,
                column,
                pixel,
            ),
    ensures
        ({
            let target = sprite_pixel(sprite, row, column);
            let bit = sprite_bit(memory[sprite.address + row], column as u8);
            let next = if bit {
                current.update(target, !current[target])
            } else {
                current
            };
            &&& 0 <= target < DISPLAY_SIZE
            &&& forall|pixel: int|
                0 <= pixel < DISPLAY_SIZE ==> next[pixel] == (before[pixel]
                    != sprite.covers_before(memory, row, column + 1, pixel))
            &&& (flipped || (bit && current[target])) <==> exists|pixel: int|
                0 <= pixel < DISPLAY_SIZE && before[pixel] && #[trigger] sprite.covers_before(
                    memory,
                    row,
                    column + 1,
                    pixel,
                )
        }),
{
    lemma_sprite_pixel(sprite, row, column);
    let target = sprite_pixel(sprite, row, column);
    let bit = sprite_bit(memory[sprite.address + row], column as u8);
    assert forall|pixel: int| 0 <= pixel < DISPLAY_SIZE implies sprite.covers_before(
        memory,
        row,
        column + 1,
        pixel,
    ) == (sprite.covers_before(memory, row, column, pixel) || (bit && pixel == target)) by {
    }
    assert(!sprite.covers_before(memory, row, column, target));
    if bit && current[target] {
        assert(before[target] && sprite.covers_before(memory, row, column + 1, target));
    }
}

/// Draws a sprite: toggles each pixel under one of its set bits, and reports whether a
/// lit pixel was turned off.
pub(crate) fn draw_sprite(
    display: &mut [bool; DISPLAY_SIZE],
    memory: &[u8; MEMORY_SIZE],
    sprite: Sprite,
) -> (collision: bool)
    requires
        sprite.well_formed(),
        sprite.in_memory(),
    ensures
        final(display)@ == sprite.drawn(memory@, old(display)@),
        collision == sprite.collides(memory@, old(display)@),
    no_unwind
{
    let ghost before = display@;
    let mut flipped = false;
    let mut row: u8 = 0;
    while row < sprite.rows
        invariant
            sprite.well_formed(),
            sprite.in_memory(),
            row <= sprite.rows,
            before.len() == DISPLAY_SIZE,
            forall|pixel: int|
                0 <= pixel < DISPLAY_SIZE ==> display@[pixel] == (before[pixel]
                    != sprite.covers_before(memory@, row as int, 0, pixel)),
            flipped <==> exists|pixel: int|
                0 <= pixel < DISPLAY_SIZE && before[pixel] && #[trigger] sprite.covers_before(
                    memory@,
                    row as int,
                    0,
                    pixel,
                ),
        decreases sprite.rows - row,
    {
        let sprite_byte = memory[sprite.address as usize + row as usize];
        let mut column: u8 = 0;
        while column < 8
            invariant
                sprite.well_formed(),
                sprite.in_memory(),
                row < sprite.rows,
                column <= 8,
                before.len() == DISPLAY_SIZE,
                sprite_byte == memory@[sprite.address + row],
                forall|pixel: int|
                    0 <= pixel < DISPLAY_SIZE ==> display@[pixel] == (before[pixel]
                        != sprite.covers_before(memory@, row as int, column as int, pixel)),
                flipped <==> exists|pixel: int|
                    0 <= pixel < DISPLAY_SIZE && before[pixel] && #[trigger] sprite.covers_before(
                        memory@,
                        row as int,
                        column as int,
                        pixel,
                    ),
            decreases 8 - column,
        {
            proof {
                lemma_draw_bit(sprite, memory@, before, display@, row as int, column as int, flipped);
            }
            if sprite_byte & (0x80 >> column) != 0 {
                let target_column = (sprite.left as usize + column as usize) % DISPLAY_WIDTH;
                let target_row = (sprite.top as usize + row as usize) % DISPLAY_HEIGHT;
                let pixel = target_column + target_row * DISPLAY_WIDTH;
                flipped = flipped || display[pixel];
                display[pixel] = !display[pixel];
            }
            column += 1;
        }
        assert forall|pixel: int| 0 <= pixel < DISPLAY_SIZE implies sprite.covers_before(
            memory@,
            row as int,
            8,
            pixel,
        ) == sprite.covers_before(memory@, row + 1, 0, pixel) by {
        }
        row += 1;
    }
    assert forall|pixel: int| 0 <= pixel < DISPLAY_SIZE implies sprite.covers_before(
        memory@,
        sprite.rows as int,
        0,
        pixel,
    ) == sprite.covers(memory@, pixel) by {
    }
    assert(display@ =~= sprite.drawn(memory@, before));
    flipped
}

/// A square of a window that shows one pixel of the display.
#[derive(Clone, Copy, Debug, PartialEq, Eq)]
pub struct PixelRect {
    /// Distance of the square from the left edge of the window.
    pub x: i32,
    /// Distance of the square from the top edge of the window.
    pub y: i32,
    /// Width of the square.
    pub width: u32,
    /// Height of the square.
    pub height: u32,
}

/// The square that shows the pixel `pixel` in a window in which every pixel of the
/// display is `scale` wide and high.
pub open spec fn pixel_rect(pixel: int, scale: u16) -> PixelRect {
    PixelRect {
        x: (pixel % (DISPLAY_WIDTH as int) * scale) as i32,
        y: (pixel / (DISPLAY_WIDTH as int) * scale) as i32,
        width: scale as u32,
        height: scale as u32,
    }
}

/// The squares that show the lit pixels among the first `count` pixels of `display`,
/// in the order of the pixels.
pub open spec fn lit_rects(display: Seq<bool>, scale: u16, count: int) -> Seq<PixelRect>
    decreases count,
{
    if count <= 0 {
        Seq::empty()
    } else if display[count - 1] {
        lit_rects(display, scale, count - 1).push(pixel_rect(count - 1, scale))
    } else {
        lit_rects(display, scale, count - 1)
    }
}

/// Lists the squares to fill in order to show a display, row by row: one for each lit
/// pixel, `scale` wide and high.
pub(crate) fn lit_pixel_rects(display: &[bool], scale: u16) -> (rects: Vec<PixelRect>)
    requires
        display@.len() == DISPLAY_SIZE,
    ensures
        rects@ == lit_rects(display@, scale, DISPLAY_SIZE as int),
{
    let mut rects: Vec<PixelRect> = Vec::new();
    let mut pixel: usize = 0;
    while pixel < DISPLAY_SIZE
        invariant
            pixel <= DISPLAY_SIZE,
            display@.len() == DISPLAY_SIZE,
            rects@ == lit_rects(display@, scale, pixel as int),
        decreases DISPLAY_SIZE - pixel,
    {
        if display[pixel] {
            let column = (pixel % DISPLAY_WIDTH) as i32;
            let row = (pixel / DISPLAY_WIDTH) as i32;
            assert(0 <= column * scale <= 63 * 0xFFFF && 0 <= row * scale <= 31 * 0xFFFF)
                by (nonlinear_arith)
                requires
                    0 <= column <= 63,
                    0 <= row <= 31,
                    0 <= scale <= 0xFFFF,
            ;
            rects.push(
                PixelRect {
                    x: column * scale as i32,
                    y: row * scale as i32,
                    width: scale as u32,
                    height: scale as u32,
                },
            );
        }
        pixel += 1;
    }
    rects
}

} // verus!
