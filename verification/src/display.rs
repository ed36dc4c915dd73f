//! The framebuffer: a 64x32 grid of one-bit pixels onto which sprites are
//! drawn by exclusive or.

use vstd::prelude::*;
use vstd::slice::slice_to_vec;

verus! {

/// The side of the square that stands for one pixel on the host's screen.
pub const PIXEL_SIZE: u32 = 10;

/// Pixels in one row of the grid.
pub const CHIP8_WIDTH: usize = 64;

/// Rows in the grid.
pub const CHIP8_HEIGHT: usize = 32;

/// The most rows a sprite can have.
pub const SPRITE_ROWS: usize = 15;

/// The grid of pixels, each 0 or 1, and whether it has changed since the
/// host last took a frame.
pub struct Display {
    vram: [[u8; CHIP8_WIDTH]; CHIP8_HEIGHT],
    vram_changed: bool,
}

/// Up to fifteen rows of eight pixels, one byte a row, leftmost pixel in the
/// highest bit.
#[derive(Debug)]
pub struct Sprite {
    data: Vec<u8>,
}

/// A colour by its red, green and blue parts.
#[derive(Clone, Copy, Debug, PartialEq, Eq)]
pub struct Colour {
    pub red: u8,
    pub green: u8,
    pub blue: u8,
}

/// A rectangle on the host's screen, by its top left corner and its size.
#[derive(Clone, Copy, Debug, PartialEq, Eq)]
pub struct Rect {
    pub x: i32,
    pub y: i32,
    pub width: u32,
    pub height: u32,
}

/// One pixel of the grid as the host is to paint it.
#[derive(Clone, Copy, Debug, PartialEq, Eq)]
pub struct Pixel {
    pub colour: Colour,
    pub representation: Rect,
}

/// What a `Display` shows: `pixels[y][x]` is the pixel in row `y`, column
/// `x`.
pub struct DisplayState {
    pub pixels: Seq<Seq<u8>>,
    pub changed: bool,
}

/// The pixel of `row` in column `column`, counted from the left: 1 if it is
/// set, else 0.
pub open spec fn bit_of(row: u8, column: int) -> u8 {
    if column == 0 {
        (row / 128) as u8
    } else if column == 1 {
        ((row / 64) % 2) as u8
    } else if column == 2 {
        ((row / 32) % 2) as u8
    } else if column == 3 {
        ((row / 16) % 2) as u8
    } else if column == 4 {
        ((row / 8) % 2) as u8
    } else if column == 5 {
        ((row / 4) % 2) as u8
    } else if column == 6 {
        ((row / 2) % 2) as u8
    } else if column == 7 {
        (row % 2) as u8
    } else {
        0
    }
}

/// What a sprite drawn at `(x, y)` lays over the pixel `(px, py)`: 1 where
/// one of its set pixels lands there, else 0. Both axes wrap.
pub open spec fn sprite_at(rows: Seq<u8>, x: int, y: int, px: int, py: int) -> u8 {
    let row = (py - y) % (CHIP8_HEIGHT as int);
    let column = (px - x) % (CHIP8_WIDTH as int);
    if row < rows.len() && column < 8 {
        bit_of(rows[row], column)
    } else {
        0
    }
}

impl DisplayState {
    /// The grid has its full size and every pixel is 0 or 1.
    pub open spec fn wf(self) -> bool {
        &&& self.pixels.len() == CHIP8_HEIGHT
        &&& forall|y: int|
            0 <= y < CHIP8_HEIGHT ==> (#[trigger] self.pixels[y]).len() == CHIP8_WIDTH
        &&& forall|x: int, y: int|
            0 <= x < CHIP8_WIDTH && 0 <= y < CHIP8_HEIGHT ==> #[trigger] self.pixels[y][x] <= 1
    }

    /// The grid with every pixel off.
    pub open spec fn blank(changed: bool) -> DisplayState {
        DisplayState {
            pixels: Seq::new(
                CHIP8_HEIGHT as nat,
                |y: int| Seq::new(CHIP8_WIDTH as nat, |x: int| 0u8),
            ),
            changed,
        }
    }

    /// The grid after a sprite has been drawn at `(x, y)`: each pixel under
    /// a set pixel of the sprite is flipped, every other one stays.
    pub open spec fn drawn(self, x: int, y: int, rows: Seq<u8>) -> DisplayState {
        DisplayState {
            pixels: Seq::new(
                CHIP8_HEIGHT as nat,
                |py: int|
                    Seq::new(
                        CHIP8_WIDTH as nat,
                        |px: int|
                            if sprite_at(rows, x, y, px, py) == 1 {
                                (1 - self.pixels[py][px]) as u8
                            } else {
                                self.pixels[py][px]
                            },
                    ),
            ),
            changed: true,
        }
    }

    /// Whether the pixel `(px, py)` is lit and lies under a set pixel of the
    /// sprite drawn at `(x, y)`.
    pub open spec fn hit(self, x: int, y: int, rows: Seq<u8>, px: int, py: int) -> bool {
        &&& 0 <= px < CHIP8_WIDTH
        &&& 0 <= py < CHIP8_HEIGHT
        &&& self.pixels[py][px] == 1
        &&& sprite_at(rows, x, y, px, py) == 1
    }

    /// Whether drawing a sprite at `(x, y)` turns a lit pixel off.
    pub open spec fn collides(self, x: int, y: int, rows: Seq<u8>) -> bool {
        exists|px: int, py: int| #[trigger] self.hit(x, y, rows, px, py)
    }
}

impl View for Sprite {
    type V = Seq<u8>;

    closed spec fn view(&self) -> Seq<u8> {
        self.data@
    }
}

impl Sprite {
    #[verifier::type_invariant]
    spec fn inv(self) -> bool {
        self.data@.len() <= SPRITE_ROWS
    }

    /// The sprite whose rows are `data`, top row first.
    pub fn new(data: &[u8]) -> (sprite: Sprite)
        requires
            data@.len() <= SPRITE_ROWS,
        ensures
            sprite@ == data@,
    {
        Sprite { data: slice_to_vec(data) }
    }
}

impl View for Display {
    type V = DisplayState;

    closed spec fn view(&self) -> DisplayState {
        DisplayState {
            pixels: Seq::new(CHIP8_HEIGHT as nat, |y: int| self.vram@[y]@),
            changed: self.vram_changed,
        }
    }
}

/// Whether a draw at `(x, y)` that has finished `rows_done` rows and
/// `bits_done` pixels of the next has passed over the pixel `(px, py)`.
spec fn passed(x: int, y: int, rows_done: int, bits_done: int, px: int, py: int) -> bool {
    let row = (py - y) % (CHIP8_HEIGHT as int);
    let column = (px - x) % (CHIP8_WIDTH as int);
    row < rows_done || (row == rows_done && column < bits_done)
}

/// After `shift` shifts to the left, the highest bit of a row is the pixel
/// of its column `shift`.
proof fn lemma_shifted_bit(row: u8, shift: u8)
    requires
        shift < 8,
    ensures
        ((row << shift) >> 7u8) & 1 == bit_of(row, shift as int),
        (row << shift) << 1u8 == row << ((shift + 1) as u8),
        row << 0u8 == row,
{
    assert(((row << 0u8) >> 7u8) & 1 == row / 128 && ((row << 1u8) >> 7u8) & 1 == (row / 64) % 2
        && ((row << 2u8) >> 7u8) & 1 == (row / 32) % 2 && ((row << 3u8) >> 7u8) & 1 == (row / 16)
        % 2 && ((row << 4u8) >> 7u8) & 1 == (row / 8) % 2 && ((row << 5u8) >> 7u8) & 1 == (row
        / 4) % 2 && ((row << 6u8) >> 7u8) & 1 == (row / 2) % 2 && ((row << 7u8) >> 7u8) & 1
        == row % 2) by (bit_vector);
    assert((row << shift) << 1u8 == row << ((shift + 1) as u8)) by (bit_vector)
        requires
            shift < 8,
    ;
    assert(row << 0u8 == row) by (bit_vector);
}

/// Exclusive or with 1 flips a pixel.
proof fn lemma_flip(pixel: u8)
    requires
        pixel <= 1,
    ensures
        pixel ^ 1 == 1 - pixel,
{
    assert(pixel <= 1 ==> pixel ^ 1 == 1 - pixel) by (bit_vector);
}

/// The pixel that a draw at `(x, y)` reaches with row `row` and column
/// `column` of the sprite is passed over at that step and at no other.
proof fn lemma_landing(x: int, y: int, row: int, column: int, px: int, py: int)
    requires
        0 <= row < CHIP8_HEIGHT,
        0 <= column < CHIP8_WIDTH,
        0 <= px < CHIP8_WIDTH,
        0 <= py < CHIP8_HEIGHT,
    ensures
        ((py - y) % (CHIP8_HEIGHT as int) == row) <==> py == (y + row) % (CHIP8_HEIGHT as int),
        ((px - x) % (CHIP8_WIDTH as int) == column) <==> px == (x + column) % (CHIP8_WIDTH as int),
{
}

impl Display {
    #[verifier::type_invariant]
    spec fn inv(self) -> bool {
        forall|x: int, y: int|
            0 <= x < CHIP8_WIDTH && 0 <= y < CHIP8_HEIGHT ==> #[trigger] self.vram@[y]@[x] <= 1
    }

    /// A display with every pixel off and nothing to show yet.
    pub fn new() -> (display: Display)
        ensures
            display@ == DisplayState::blank(false),
            display@.wf(),
    {
        let display = Display { vram: [[0u8; CHIP8_WIDTH]; CHIP8_HEIGHT], vram_changed: false };
        assert(display@.pixels =~~= DisplayState::blank(false).pixels);
        display
    }

    /// Whether the grid is what `before` has become once a draw of `rows` at
    /// `(x, y)` has finished `rows_done` rows and `bits_done` pixels of the
    /// next, with `collision` telling whether a lit pixel has gone off so far.
    spec fn drawn_so_far(
        self,
        before: DisplayState,
        x: int,
        y: int,
        rows: Seq<u8>,
        rows_done: int,
        bits_done: int,
        collision: u8,
    ) -> bool {
        &&& forall|px: int, py: int|
            0 <= px < CHIP8_WIDTH && 0 <= py < CHIP8_HEIGHT ==> #[trigger] self.vram@[py]@[px] == (
            if passed(x, y, rows_done, bits_done, px, py) && sprite_at(rows, x, y, px, py) == 1 {
                (1 - before.pixels[py][px]) as u8
            } else {
                before.pixels[py][px]
            })
        &&& collision <= 1
        &&& collision == 1 <==> exists|px: int, py: int|
            passed(x, y, rows_done, bits_done, px, py) && #[trigger] before.hit(x, y, rows, px, py)
    }

    /// Draws `sprite` with its top left pixel at column `x` modulo 64 and
    /// row `y` modulo 32. Returns 1 if that turned a lit pixel off, else 0.
    pub fn draw_sprite(&mut self, x: u8, y: u8, sprite: Sprite) -> (collision: u8)
        ensures
            final(self)@ == old(self)@.drawn(x as int, y as int, sprite@),
            collision == if old(self)@.collides(x as int, y as int, sprite@) {
                1u8
            } else {
                0u8
            },
            final(self)@.wf(),
    {
        proof {
            use_type_invariant(&*self);
            use_type_invariant(&sprite);
        }
        let ghost before = self@;
        let ghost left = x as int;
        let ghost top = y as int;
        let mut collision: u8 = 0;
        let mut at_y: usize = (y % 32) as usize;
        let mut row_index: usize = 0;
        while row_index < sprite.data.len()
            invariant
                before.wf(),
                left == x,
                top == y,
                sprite.data@.len() <= SPRITE_ROWS,
                row_index <= sprite.data@.len(),
                at_y == (y + row_index) % (CHIP8_HEIGHT as int),
                self.drawn_so_far(before, left, top, sprite@, row_index as int, 0, collision),
                self.vram_changed == old(self).vram_changed,
            decreases sprite.data@.len() - row_index,
        {
            let mut row: u8 = sprite.data[row_index];
            let mut at_x: usize = (x % 64) as usize;
            let mut bit_index: u8 = 0;
            proof {
                lemma_shifted_bit(sprite.data@[row_index as int], 0);
            }
            while bit_index < 8
                invariant
                    before.wf(),
                    left == x,
                    top == y,
                    sprite.data@.len() <= SPRITE_ROWS,
                    row_index < sprite.data@.len(),
                    bit_index <= 8,
                    at_y == (y + row_index) % (CHIP8_HEIGHT as int),
                    at_x == (x + bit_index) % (CHIP8_WIDTH as int),
                    row == sprite.data@[row_index as int] << bit_index,
                    self.drawn_so_far(
                        before,
                        left,
                        top,
                        sprite@,
                        row_index as int,
                        bit_index as int,
                        collision,
                    ),
                    self.vram_changed == old(self).vram_changed,
                decreases 8 - bit_index,
            {
                let bit = (row >> 7) & 1;
                let ghost collided = collision;
                proof {
                    lemma_shifted_bit(sprite.data@[row_index as int], bit_index);
                    lemma_flip(self.vram@[at_y as int]@[at_x as int]);
                    assert forall|px: int, py: int|
                        0 <= px < CHIP8_WIDTH && 0 <= py < CHIP8_HEIGHT implies (passed(
                        left,
                        top,
                        row_index as int,
                        bit_index + 1,
                        px,
                        py,
                    ) <==> passed(left, top, row_index as int, bit_index as int, px, py) || (px
                        == at_x && py == at_y)) by {
                        lemma_landing(left, top, row_index as int, bit_index as int, px, py);
                    }
                    lemma_landing(
                        left,
                        top,
                        row_index as int,
                        bit_index as int,
                        at_x as int,
                        at_y as int,
                    );
                    assert(sprite_at(sprite@, left, top, at_x as int, at_y as int) == bit);
                }
                if bit != 0 {
                    if self.vram[at_y][at_x] == 1 {
                        collision = 1;
                    }
                    self.vram[at_y][at_x] ^= bit;
                }
                proof {
                    if bit != 0 && before.pixels[at_y as int][at_x as int] == 1 {
                        assert(before.hit(left, top, sprite@, at_x as int, at_y as int));
                    }
                    assert(collision == 1 <==> (collided == 1 || (bit != 0
                        && before.pixels[at_y as int][at_x as int] == 1)));
                }
                row <<= 1;
                at_x = if at_x == CHIP8_WIDTH - 1 {
                    0
                } else {
                    at_x + 1
                };
                bit_index += 1;
            }
            proof {
                assert forall|px: int, py: int|
                    0 <= px < CHIP8_WIDTH && 0 <= py < CHIP8_HEIGHT implies ((passed(
                    left,
                    top,
                    row_index as int,
                    8,
                    px,
                    py,
                ) && sprite_at(sprite@, left, top, px, py) == 1) <==> (passed(
                    left,
                    top,
                    row_index + 1,
                    0,
                    px,
                    py,
                ) && sprite_at(sprite@, left, top, px, py) == 1)) by {}
            }
            at_y = if at_y == CHIP8_HEIGHT - 1 {
                0
            } else {
                at_y + 1
            };
            row_index += 1;
        }
        self.vram_changed = true;
        proof {
            assert(self@.pixels =~~= before.drawn(left, top, sprite@).pixels);
        }
        collision
    }

    /// Turns every pixel off.
    pub fn clear_screen(&mut self)
        ensures
            final(self)@ == DisplayState::blank(true),
            final(self)@.wf(),
    {
        self.vram = [[0u8; CHIP8_WIDTH]; CHIP8_HEIGHT];
        self.vram_changed = true;
        assert(self@.pixels =~~= DisplayState::blank(true).pixels);
    }

    /// The pixel in column `x` of row `y`: 1 if it is lit, else 0.
    pub fn pixel(&self, x: usize, y: usize) -> (pixel: u8)
        requires
            x < CHIP8_WIDTH,
            y < CHIP8_HEIGHT,
        ensures
            pixel == self@.pixels[y as int][x as int],
            pixel <= 1,
    {
        proof {
            use_type_invariant(self);
        }
        self.vram[y][x]
    }

    /// Whether the grid has changed since a frame was last taken.
    pub fn vram_changed(&self) -> (changed: bool)
        ensures
            changed == self@.changed,
            self@.wf(),
    {
        proof {
            use_type_invariant(self);
        }
        self.vram_changed
    }
}

impl Pixel {
    /// How the pixel in column `xpos` and row `ypos` is painted: a square of
    /// `PIXEL_SIZE`, magenta if `colour` is 1 and black otherwise.
    pub open spec fn at(xpos: int, ypos: int, colour: u8) -> Pixel {
        Pixel {
            colour: if colour == 1 {
                Colour { red: 238, green: 66, blue: 244 }
            } else {
                Colour { red: 0, green: 0, blue: 0 }
            },
            representation: Rect {
                x: (xpos * PIXEL_SIZE) as i32,
                y: (ypos * PIXEL_SIZE) as i32,
                width: PIXEL_SIZE,
                height: PIXEL_SIZE,
            },
        }
    }

    /// The pixel in column `xpos` and row `ypos` as it is painted.
    pub fn new(xpos: usize, ypos: usize, colour: u8) -> (pixel: Pixel)
        requires
            xpos * PIXEL_SIZE <= i32::MAX,
            ypos * PIXEL_SIZE <= i32::MAX,
        ensures
            pixel == Pixel::at(xpos as int, ypos as int, colour),
    {
        Pixel {
            colour: if colour == 1 {
                Colour { red: 238, green: 66, blue: 244 }
            } else {
                Colour { red: 0, green: 0, blue: 0 }
            },
            representation: Rect {
                x: xpos as i32 * PIXEL_SIZE as i32,
                y: ypos as i32 * PIXEL_SIZE as i32,
                width: PIXEL_SIZE,
                height: PIXEL_SIZE,
            },
        }
    }
}

/// The whole grid as the host is to paint it, row by row from the top, each
/// row from the left.
pub open spec fn frame_of(pixels: Seq<Seq<u8>>) -> Seq<Pixel> {
    Seq::new(
        (CHIP8_WIDTH * CHIP8_HEIGHT) as nat,
        |k: int|
            Pixel::at(
                k % (CHIP8_WIDTH as int),
                k / (CHIP8_WIDTH as int),
                pixels[k / (CHIP8_WIDTH as int)][k % (CHIP8_WIDTH as int)],
            ),
    )
}

impl Display {
    /// Takes a frame: returns every pixel as the host is to paint it, and
    /// marks the grid as shown.
    pub fn refresh_display(&mut self) -> (frame: Vec<Pixel>)
        ensures
            frame@ == frame_of(old(self)@.pixels),
            final(self)@ == (DisplayState { changed: false, ..old(self)@ }),
            final(self)@.wf(),
    {
        proof {
            use_type_invariant(&*self);
        }
        let mut frame: Vec<Pixel> = Vec::new();
        let mut y: usize = 0;
        while y < CHIP8_HEIGHT
            invariant
                y <= CHIP8_HEIGHT,
                frame@.len() == y * CHIP8_WIDTH,
                forall|k: int|
                    0 <= k < frame@.len() ==> #[trigger] frame@[k] == frame_of(self@.pixels)[k],
            decreases CHIP8_HEIGHT - y,
        {
            let mut x: usize = 0;
            while x < CHIP8_WIDTH
                invariant
                    y < CHIP8_HEIGHT,
                    x <= CHIP8_WIDTH,
                    frame@.len() == y * CHIP8_WIDTH + x,
                    forall|k: int|
                        0 <= k < frame@.len() ==> #[trigger] frame@[k] == frame_of(self@.pixels)[k],
                decreases CHIP8_WIDTH - x,
            {
                let pixel = Pixel::new(x, y, self.vram[y][x]);
                frame.push(pixel);
                x += 1;
            }
            y += 1;
        }
        self.vram_changed = false;
        assert(frame@ =~= frame_of(old(self)@.pixels));
        assert(self@.pixels =~~= old(self)@.pixels);
        frame
    }
}

} // verus!
