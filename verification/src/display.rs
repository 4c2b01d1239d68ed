//! The display buffer: 64 by 32 monochrome pixels.
//!
//! Pixels are kept row by row: the pixel in column `c` of row `r` has the
//! index `r * 64 + c`. A sprite is a sequence of bytes, one per pixel row,
//! the highest bit leftmost. Drawing a sprite XORs it onto the buffer, and
//! coordinates that run off an edge come back in at the opposite edge.
use vstd::prelude::*;

verus! {

/// Pixels in one row.
pub const WIDTH: usize = 64;

/// Pixel rows.
pub const HEIGHT: usize = 32;

/// Pixels in the whole buffer.
pub const PIXELS: usize = 2048;

/// The index of the pixel at column `x`, row `y`, both wrapped onto the
/// buffer.
pub open spec fn pixel_index(x: int, y: int) -> int {
    (y % 32) * 64 + x % 64
}

/// A buffer with every pixel off.
pub open spec fn blank() -> Seq<bool> {
    Seq::new(2048, |i: int| false)
}

/// Whether the sprite row `row` has its pixel in column `col` set. Column 0
/// is the highest bit; columns outside `0..8` hold no pixel.
pub open spec fn sprite_bit(row: u8, col: int) -> bool {
    0 <= col < 8 && row & (0x80u8 >> (col as u8)) != 0
}

/// How many columns to the right of column `x` the buffer pixel with index
/// `i` lies, going round the right edge if need be.
pub open spec fn column_offset(x: int, i: int) -> int {
    (i % 64 - x) % 64
}

/// Whether the sprite row `row`, drawn with its left end at column `x` in
/// row `y`, has a set pixel on the buffer pixel with index `i`. Both the
/// row and the columns wrap.
pub open spec fn row_lights(x: int, y: int, row: u8, i: int) -> bool {
    i / 64 == y % 32 && sprite_bit(row, column_offset(x, i))
}

/// The buffer after one sprite row is XORed onto it.
pub open spec fn blit_row(pixels: Seq<bool>, x: int, y: int, row: u8) -> Seq<bool> {
    Seq::new(2048, |i: int| pixels[i] != row_lights(x, y, row, i))
}

/// Whether XORing one sprite row onto the buffer turns a pixel off.
pub open spec fn row_collides(pixels: Seq<bool>, x: int, y: int, row: u8) -> bool {
    exists|i: int| 0 <= i < 2048 && pixels[i] && #[trigger] row_lights(x, y, row, i)
}

/// The buffer after a sprite is drawn with its top left corner at `(x, y)`:
/// its rows are XORed onto the buffer one below the other.
pub open spec fn blit(pixels: Seq<bool>, x: int, y: int, sprite: Seq<u8>) -> Seq<bool>
    decreases sprite.len(),
{
    if sprite.len() == 0 {
        pixels
    } else {
        blit_row(blit(pixels, x, y, sprite.drop_last()), x, y + sprite.len() - 1, sprite.last())
    }
}

/// Whether drawing a sprite turns a pixel off: whether any of its rows does
/// when its turn comes.
pub open spec fn collides(pixels: Seq<bool>, x: int, y: int, sprite: Seq<u8>) -> bool
    decreases sprite.len(),
{
    if sprite.len() == 0 {
        false
    } else {
        collides(pixels, x, y, sprite.drop_last()) || row_collides(
            blit(pixels, x, y, sprite.drop_last()),
            x,
            y + sprite.len() - 1,
            sprite.last(),
        )
    }
}

/// Whether the sprite, drawn at `(x, y)`, has a set pixel on the buffer
/// pixel with index `i`. For a sprite of at most 32 rows, so that no two of
/// its rows share a buffer row.
pub open spec fn sprite_lights(x: int, y: int, sprite: Seq<u8>, i: int) -> bool {
    let k = (i / 64 - y) % 32;
    k < sprite.len() && sprite_bit(sprite[k], column_offset(x, i))
}

/// A sprite row drawn 32 rows further down lands on the same buffer row.
pub proof fn lemma_row_wraps(pixels: Seq<bool>, x: int, y: int, other_y: int, row: u8)
    requires
        y % 32 == other_y % 32,
    ensures
        blit_row(pixels, x, y, row) == blit_row(pixels, x, other_y, row),
        row_collides(pixels, x, y, row) == row_collides(pixels, x, other_y, row),
{
    assert forall|i: int| row_lights(x, y, row, i) == row_lights(x, other_y, row, i) by {}
    assert(blit_row(pixels, x, y, row) =~= blit_row(pixels, x, other_y, row));
    if row_collides(pixels, x, y, row) {
        let i = choose|i: int| 0 <= i < 2048 && pixels[i] && #[trigger] row_lights(x, y, row, i);
        assert(row_lights(x, other_y, row, i));
    }
    if row_collides(pixels, x, other_y, row) {
        let i = choose|i: int|
            0 <= i < 2048 && pixels[i] && #[trigger] row_lights(x, other_y, row, i);
        assert(row_lights(x, y, row, i));
    }
}

/// Drawing never changes the size of the buffer.
pub proof fn lemma_blit_len(pixels: Seq<bool>, x: int, y: int, sprite: Seq<u8>)
    requires
        pixels.len() == 2048,
    ensures
        blit(pixels, x, y, sprite).len() == 2048,
    decreases sprite.len(),
{
    if sprite.len() > 0 {
        lemma_blit_len(pixels, x, y, sprite.drop_last());
    }
}

/// Buffer row `line` is where a row drawn `k` rows below `y` lands exactly
/// if `line` lies `k` rows below `y`, going round the bottom edge.
proof fn lemma_row_offset(y: int, line: int, k: int)
    requires
        0 <= line < 32,
        0 <= k < 32,
    ensures
        line == (y + k) % 32 <==> (line - y) % 32 == k,
{
    if line == (y + k) % 32 {
        let q = (y + k) / 32;
        assert(line - y == (-q) * 32 + k);
        vstd::arithmetic::div_mod::lemma_fundamental_div_mod_converse(line - y, 32, -q, k);
    }
    if (line - y) % 32 == k {
        let q = (line - y) / 32;
        assert(y + k == (-q) * 32 + line);
        vstd::arithmetic::div_mod::lemma_fundamental_div_mod_converse(y + k, 32, -q, line);
    }
}

/// What the last row adds to a sprite of at most 32 rows: the sprite lights
/// a pixel exactly if its last row or the rows before it do, and they never
/// light the same pixel.
proof fn lemma_last_row_lights(x: int, y: int, sprite: Seq<u8>, i: int)
    requires
        0 < sprite.len() <= 32,
        0 <= i < 2048,
    ensures
        sprite_lights(x, y, sprite, i) <==> sprite_lights(x, y, sprite.drop_last(), i)
            || row_lights(x, y + sprite.len() - 1, sprite.last(), i),
        !(sprite_lights(x, y, sprite.drop_last(), i) && row_lights(
            x,
            y + sprite.len() - 1,
            sprite.last(),
            i,
        )),
{
    let k = (i / 64 - y) % 32;
    lemma_row_offset(y, i / 64, sprite.len() - 1);
    if k < sprite.len() - 1 {
        assert(sprite.drop_last()[k] == sprite[k]);
    }
}

/// A sprite of at most 32 rows flips exactly the pixels that it has set:
/// each pixel of the buffer ends up as it was XOR whether the sprite lights
/// it.
pub proof fn lemma_blit_pixelwise(pixels: Seq<bool>, x: int, y: int, sprite: Seq<u8>)
    requires
        pixels.len() == 2048,
        sprite.len() <= 32,
    ensures
        blit(pixels, x, y, sprite) == Seq::new(
            2048,
            |i: int| pixels[i] != sprite_lights(x, y, sprite, i),
        ),
    decreases sprite.len(),
{
    let target = Seq::new(2048, |i: int| pixels[i] != sprite_lights(x, y, sprite, i));
    if sprite.len() == 0 {
        assert(pixels =~= target);
    } else {
        let front = sprite.drop_last();
        lemma_blit_pixelwise(pixels, x, y, front);
        let before = blit(pixels, x, y, front);
        let after = blit_row(before, x, y + sprite.len() - 1, sprite.last());
        assert forall|i: int| 0 <= i < 2048 implies after[i] == target[i] by {
            lemma_last_row_lights(x, y, sprite, i);
            assert(before[i] == (pixels[i] != sprite_lights(x, y, front, i)));
        }
        assert(after =~= target);
    }
}

/// A sprite of at most 32 rows collides exactly if it has a set pixel on a
/// pixel of the buffer that is on.
pub proof fn lemma_collides_pixelwise(pixels: Seq<bool>, x: int, y: int, sprite: Seq<u8>)
    requires
        pixels.len() == 2048,
        sprite.len() <= 32,
    ensures
        collides(pixels, x, y, sprite) <==> exists|i: int|
            0 <= i < 2048 && pixels[i] && #[trigger] sprite_lights(x, y, sprite, i),
    decreases sprite.len(),
{
    if sprite.len() > 0 {
        let front = sprite.drop_last();
        let last = sprite.last();
        let last_y = y + sprite.len() - 1;
        lemma_collides_pixelwise(pixels, x, y, front);
        lemma_blit_pixelwise(pixels, x, y, front);
        let before = blit(pixels, x, y, front);
        if collides(pixels, x, y, front) {
            let i = choose|i: int|
                0 <= i < 2048 && pixels[i] && #[trigger] sprite_lights(x, y, front, i);
            lemma_last_row_lights(x, y, sprite, i);
            assert(sprite_lights(x, y, sprite, i));
        }
        if row_collides(before, x, last_y, last) {
            let i = choose|i: int|
                0 <= i < 2048 && before[i] && #[trigger] row_lights(x, last_y, last, i);
            lemma_last_row_lights(x, y, sprite, i);
            assert(before[i] == (pixels[i] != sprite_lights(x, y, front, i)));
            assert(pixels[i] && sprite_lights(x, y, sprite, i));
        }
        if exists|i: int| 0 <= i < 2048 && pixels[i] && #[trigger] sprite_lights(x, y, sprite, i) {
            let i = choose|i: int|
                0 <= i < 2048 && pixels[i] && #[trigger] sprite_lights(x, y, sprite, i);
            lemma_last_row_lights(x, y, sprite, i);
            if sprite_lights(x, y, front, i) {
                assert(collides(pixels, x, y, front));
            } else {
                assert(before[i] == (pixels[i] != sprite_lights(x, y, front, i)));
                assert(before[i] && row_lights(x, last_y, last, i));
                assert(row_collides(before, x, last_y, last));
            }
        }
    }
}

/// The display buffer.
pub struct Display {
    pixels: [bool; 2048],
}

impl View for Display {
    type V = Seq<bool>;

    /// The pixels, row by row; `true` is on.
    closed spec fn view(&self) -> Seq<bool> {
        self.pixels@
    }
}

impl Display {
    /// The buffer always holds 2048 pixels.
    pub proof fn lemma_len(&self)
        ensures
            self@.len() == 2048,
    {
    }

    /// A display with every pixel off.
    pub fn new() -> (display: Display)
        ensures
            display@ == blank(),
    {
        let display = Display { pixels: [false; 2048] };
        assert(display@ =~= blank());
        display
    }

    /// Turns every pixel off.
    pub fn clear(&mut self)
        ensures
            final(self)@ == blank(),
        no_unwind
    {
        let mut i: usize = 0;
        while i < 2048
            invariant
                i <= 2048,
                forall|k: int| 0 <= k < i ==> !self.pixels@[k],
            decreases 2048 - i,
        {
            self.pixels[i] = false;
            i = i + 1;
        }
        assert(self@ =~= blank());
    }

    /// Whether the pixel in column `x`, row `y` is on. Coordinates beyond the
    /// buffer wrap, as they do in drawing.
    pub fn pixel(&self, x: usize, y: usize) -> (on: bool)
        ensures
            on == self@[pixel_index(x as int, y as int)],
    {
        self.pixels[(y % 32) * 64 + x % 64]
    }

    /// A copy of the whole buffer, row by row, for a renderer to read.
    pub fn snapshot(&self) -> (grid: [bool; 2048])
        ensures
            grid@ == self@,
    {
        self.pixels
    }

    /// XORs one sprite row onto the buffer, its leftmost pixel in column
    /// `x` of row `y`, and reports whether a pixel was turned off. Both
    /// coordinates wrap.
    pub fn xor_row(&mut self, x: u8, y: u8, row: u8) -> (hit: bool)
        ensures
            final(self)@ == blit_row(old(self)@, x as int, y as int, row),
            hit == row_collides(old(self)@, x as int, y as int, row),
        no_unwind
    {
        let ghost start = self@;
        let line: usize = (y % 32) as usize;
        let mut hit: bool = false;
        let mut col: u8 = 0;
        while col < 8
            invariant
                col <= 8,
                line == y % 32,
                start.len() == 2048,
                forall|i: int|
                    0 <= i < 2048 ==> self.pixels@[i] == (start[i] != (row_lights(
                        x as int,
                        y as int,
                        row,
                        i,
                    ) && column_offset(x as int, i) < col)),
                hit <==> exists|i: int|
                    0 <= i < 2048 && start[i] && #[trigger] row_lights(x as int, y as int, row, i)
                        && column_offset(x as int, i) < col,
            decreases 8 - col,
        {
            let mask: u8 = 0x80u8 >> col;
            let px: usize = (x as usize + col as usize) % 64;
            let at: usize = line * 64 + px;
            assert(column_offset(x as int, at as int) == col);
            assert(at as int / 64 == line);
            assert(forall|i: int|
                0 <= i < 2048 && i != at && i / 64 == line ==> #[trigger] column_offset(
                    x as int,
                    i,
                ) != col);
            if row & mask != 0 {
                assert(row_lights(x as int, y as int, row, at as int));
                if self.pixels[at] {
                    hit = true;
                }
                self.pixels[at] = !self.pixels[at];
            }
            col = col + 1;
        }
        assert(self@ =~= blit_row(start, x as int, y as int, row));
        hit
    }

    /// Draws a sprite with its top left corner at column `x`, row `y`, and
    /// reports whether any pixel that was on has been turned off.
    ///
    /// Each byte of the sprite is one row of eight pixels, XORed onto the
    /// buffer. A sprite that runs off the right or the bottom edge goes on at
    /// the left or the top.
    pub fn blit(&mut self, x: u8, y: u8, sprite: &[u8]) -> (collided: bool)
        ensures
            final(self)@ == blit(old(self)@, x as int, y as int, sprite@),
            collided == collides(old(self)@, x as int, y as int, sprite@),
            sprite@.len() <= 32 ==> final(self)@ == Seq::new(
                2048,
                |i: int| old(self)@[i] != sprite_lights(x as int, y as int, sprite@, i),
            ),
            sprite@.len() <= 32 ==> (collided <==> exists|i: int|
                0 <= i < 2048 && old(self)@[i] && #[trigger] sprite_lights(
                    x as int,
                    y as int,
                    sprite@,
                    i,
                )),
    {
        let ghost start = self@;
        let mut collided: bool = false;
        let mut k: usize = 0;
        let mut row_y: u8 = y % 32;
        while k < sprite.len()
            invariant
                k <= sprite.len(),
                row_y == (y + k) % 32,
                start.len() == 2048,
                self@ == blit(start, x as int, y as int, sprite@.take(k as int)),
                collided == collides(start, x as int, y as int, sprite@.take(k as int)),
            decreases sprite.len() - k,
        {
            proof {
                let upto = sprite@.take(k + 1);
                assert(upto.drop_last() =~= sprite@.take(k as int));
                assert(upto.last() == sprite@[k as int]);
                lemma_row_wraps(self@, x as int, row_y as int, y + k, sprite@[k as int]);
            }
            let hit: bool = self.xor_row(x, row_y, sprite[k]);
            collided = collided || hit;
            k = k + 1;
            row_y = (row_y + 1) % 32;
        }
        proof {
            assert(sprite@.take(k as int) =~= sprite@);
            if sprite@.len() <= 32 {
                lemma_blit_pixelwise(start, x as int, y as int, sprite@);
                lemma_collides_pixelwise(start, x as int, y as int, sprite@);
            }
        }
        collided
    }
}

} // verus!
