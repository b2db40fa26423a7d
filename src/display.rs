//! The 64 by 32 monochrome pixel grid and sprite drawing.
use vstd::prelude::*;

verus! {

/// Pixels per row.
pub const WIDTH: usize = 64;

/// Rows of pixels.
pub const HEIGHT: usize = 32;

/// Number of pixels; pixel `(col, row)` sits at index `row * WIDTH + col`.
pub const PIXELS: usize = 2048;

/// A screen with every pixel off.
pub open spec fn blank_screen() -> Seq<bool> {
    Seq::new(PIXELS as nat, |i: int| false)
}

/// How far right of column `x0` pixel `p` lies, wrapping round the row.
pub open spec fn col_offset(x0: int, p: int) -> int {
    (p % 64 - x0) % 64
}

/// How far below row `y0` pixel `p` lies, wrapping round the columns.
pub open spec fn row_offset(y0: int, p: int) -> int {
    (p / 64 - y0) % 32
}

/// Bit `c` of a sprite row, counting from the most significant bit.
pub open spec fn row_bit(byte: u8, c: int) -> bool {
    (byte >> ((7 - c) as u8)) & 1u8 == 1u8
}

/// Whether the sprite, placed with its top-left corner at `(x0, y0)`, has a
/// set bit over pixel `p`.
pub open spec fn sprite_bit(sprite: Seq<u8>, x0: int, y0: int, p: int) -> bool {
    let c = col_offset(x0, p);
    let r = row_offset(y0, p);
    c < 8 && r < sprite.len() && row_bit(sprite[r], c)
}

/// The screen after XOR-ing the sprite onto it at `(x0, y0)`.
pub open spec fn draw_screen(screen: Seq<bool>, sprite: Seq<u8>, x0: int, y0: int) -> Seq<bool> {
    Seq::new(screen.len(), |p: int| screen[p] != sprite_bit(sprite, x0, y0, p))
}

/// Whether drawing the sprite at `(x0, y0)` turns some lit pixel off.
pub open spec fn draw_collides(screen: Seq<bool>, sprite: Seq<u8>, x0: int, y0: int) -> bool {
    exists|p: int| 0 <= p < screen.len() && screen[p] && #[trigger] sprite_bit(sprite, x0, y0, p)
}

/// Whether pixel `p` comes before sprite row `r`, column `c` in drawing
/// order, rows first.
spec fn covered(x0: int, y0: int, r: int, c: int, p: int) -> bool {
    row_offset(y0, p) < r || (row_offset(y0, p) == r && col_offset(x0, p) < c)
}

/// The display buffer, as a vector of exactly `PIXELS` pixels.
#[derive(Debug)]
pub struct Display {
    pixels: Vec<bool>,
}

impl View for Display {
    type V = Seq<bool>;

    closed spec fn view(&self) -> Seq<bool> {
        self.pixels@
    }
}

/// Pixel `row * 64 + col` is the one pixel whose offsets from `(x0, y0)` are
/// `(c, r)`, where `col` and `row` are `x0 + c` and `y0 + r` wrapped.
proof fn lemma_pixel_offsets(x0: int, y0: int, r: int, c: int, p: int)
    requires
        0 <= x0 < 64,
        0 <= y0 < 32,
        0 <= r < 32,
        0 <= c < 64,
        0 <= p < 2048,
    ensures
        (row_offset(y0, p) == r && col_offset(x0, p) == c) <==> p == ((y0 + r) % 32) * 64 + (x0
            + c) % 64,
{
    let row = (y0 + r) % 32;
    let col = (x0 + c) % 64;
    assert(p == (p / 64) * 64 + p % 64);
    assert(0 <= p / 64 < 32);
    assert(row_offset(y0, p) == r <==> p / 64 == row);
    assert(col_offset(x0, p) == c <==> p % 64 == col);
    if p == row * 64 + col {
        assert(p / 64 == row && p % 64 == col);
    }
}

impl Display {
    /// There are exactly `PIXELS` pixels.
    pub open spec fn wf(&self) -> bool {
        self@.len() == PIXELS
    }

    /// A blank display.
    pub fn new() -> (r: Display)
        ensures
            r.wf(),
            r@ == blank_screen(),
    {
        let mut pixels: Vec<bool> = Vec::new();
        while pixels.len() < PIXELS
            invariant
                pixels.len() <= PIXELS,
                forall|i: int| 0 <= i < pixels.len() ==> !pixels@[i],
            decreases PIXELS - pixels.len(),
        {
            pixels.push(false);
        }
        assert(pixels@ =~= blank_screen());
        Display { pixels }
    }

    /// Turns every pixel off.
    pub fn clear(&mut self)
        requires
            old(self).wf(),
        ensures
            final(self).wf(),
            final(self)@ == blank_screen(),
    {
        let mut i: usize = 0;
        while i < PIXELS
            invariant
                self.pixels.len() == PIXELS,
                0 <= i <= PIXELS,
                forall|j: int| 0 <= j < i ==> !self.pixels@[j],
            decreases PIXELS - i,
        {
            self.pixels.set(i, false);
            i += 1;
        }
        assert(self.pixels@ =~= blank_screen());
    }

    /// Whether the pixel at column `x`, row `y` is lit.
    pub fn pixel(&self, x: usize, y: usize) -> (r: bool)
        requires
            self.wf(),
            x < WIDTH,
            y < HEIGHT,
        ensures
            r == self@[y * 64 + x],
    {
        self.pixels[y * WIDTH + x]
    }

    /// XORs the sprite's rows onto the screen with its top-left corner at
    /// `(x0, y0)`, wrapping at the edges; returns whether a lit pixel was
    /// turned off.
    pub fn draw(&mut self, x0: usize, y0: usize, sprite: &[u8]) -> (collision: bool)
        requires
            old(self).wf(),
            x0 < WIDTH,
            y0 < HEIGHT,
            sprite@.len() <= HEIGHT,
        ensures
            final(self).wf(),
            final(self)@ == draw_screen(old(self)@, sprite@, x0 as int, y0 as int),
            collision == draw_collides(old(self)@, sprite@, x0 as int, y0 as int),
    {
        let ghost before = self.pixels@;
        let ghost x = x0 as int;
        let ghost y = y0 as int;
        let mut collision = false;
        let mut r: usize = 0;
        while r < sprite.len()
            invariant
                self.pixels.len() == PIXELS,
                before.len() == PIXELS,
                x == x0,
                y == y0,
                x0 < WIDTH,
                y0 < HEIGHT,
                sprite@.len() <= HEIGHT,
                0 <= r <= sprite@.len(),
                forall|p: int|
                    0 <= p < PIXELS ==> #[trigger] self.pixels@[p] == (before[p] != (sprite_bit(
                        sprite@,
                        x,
                        y,
                        p,
                    ) && row_offset(y, p) < r)),
                collision == exists|p: int|
                    0 <= p < PIXELS && before[p] && #[trigger] sprite_bit(sprite@, x, y, p)
                        && row_offset(y, p) < r,
            decreases sprite@.len() - r,
        {
            let byte = sprite[r];
            let row: usize = (y0 + r) % HEIGHT;
            let mut c: usize = 0;
            while c < 8
                invariant
                    self.pixels.len() == PIXELS,
                    before.len() == PIXELS,
                    x == x0,
                    y == y0,
                    x0 < WIDTH,
                    y0 < HEIGHT,
                    sprite@.len() <= HEIGHT,
                    0 <= r < sprite@.len(),
                    byte == sprite@[r as int],
                    row == (y0 + r) % 32,
                    0 <= c <= 8,
                    forall|p: int|
                        0 <= p < PIXELS ==> #[trigger] self.pixels@[p] == (before[p] != (
                        sprite_bit(sprite@, x, y, p) && covered(x, y, r as int, c as int, p))),
                    collision == exists|p: int|
                        0 <= p < PIXELS && before[p] && #[trigger] sprite_bit(sprite@, x, y, p) 
                            && covered(x, y, r as int, c as int, p),
                decreases 8 - c,
            {
                let col: usize = (x0 + c) % WIDTH;
                let idx: usize = row * WIDTH + col;
                let ghost prev = self.pixels@;
                let ghost prev_collision = collision;
                assert forall|p: int| 0 <= p < PIXELS implies (row_offset(y, p) == r
                    && col_offset(x, p) == c) <==> p == idx by {
                    lemma_pixel_offsets(x, y, r as int, c as int, p);
                }
                assert(row_offset(y, idx as int) == r && col_offset(x, idx as int) == c);
                let lit = (byte >> ((7 - c) as u8)) & 1u8 == 1u8;
                assert(lit == sprite_bit(sprite@, x, y, idx as int));
                if lit {
                    let old_px = self.pixels[idx];
                    if old_px {
                        collision = true;
                    }
                    self.pixels.set(idx, !old_px);
                }
                proof {
                    assert forall|p: int| 0 <= p < PIXELS && p != idx implies covered(x, y, r as int, c + 1, p)
                        == covered(x, y, r as int, c as int, p) by {
                        lemma_pixel_offsets(x, y, r as int, c as int, p);
                    }
                    if collision && !prev_collision {
                        assert(0 <= idx < PIXELS && before[idx as int] && sprite_bit(
                            sprite@,
                            x,
                            y,
                            idx as int,
                        ) && covered(x, y, r as int, c + 1, idx as int));
                    }
                    if prev_collision {
                        let w = choose|p: int|
                            0 <= p < PIXELS && before[p] && #[trigger] sprite_bit(sprite@, x, y, p)
                                && covered(x, y, r as int, c as int, p);
                        assert(covered(x, y, r as int, c + 1, w));
                    }
                    if !collision {
                        assert forall|p: int|
                            0 <= p < PIXELS && before[p] && #[trigger] sprite_bit(
                                sprite@,
                                x,
                                y,
                                p,
                            ) implies !covered(x, y, r as int, c + 1, p) by {
                            if p == idx {
                            } else {
                                assert(!covered(x, y, r as int, c as int, p));
                            }
                        }
                    }
                }
                c += 1;
            }
            proof {
                assert forall|p: int| 0 <= p < PIXELS && sprite_bit(sprite@, x, y, p) implies (
                row_offset(y, p) < r + 1) == covered(x, y, r as int, 8, p) by {}
            }
            r += 1;
        }
        proof {
            assert forall|p: int| 0 <= p < PIXELS && sprite_bit(sprite@, x, y, p) implies row_offset(
                y,
                p,
            ) < r by {}
            assert(self.pixels@ =~= draw_screen(before, sprite@, x, y));
        }
        collision
    }
}

/// Drawing the same sprite twice at the same place gives back the screen
/// drawn on, and the second drawing collides exactly where the first one
/// lit a pixel.
pub proof fn lemma_draw_twice(screen: Seq<bool>, sprite: Seq<u8>, x0: int, y0: int)
    ensures
        draw_screen(draw_screen(screen, sprite, x0, y0), sprite, x0, y0) == screen,
        draw_collides(draw_screen(screen, sprite, x0, y0), sprite, x0, y0) == exists|p: int|
            0 <= p < screen.len() && !screen[p] && #[trigger] sprite_bit(sprite, x0, y0, p),
{
    let once = draw_screen(screen, sprite, x0, y0);
    assert(draw_screen(once, sprite, x0, y0) =~= screen);
    if draw_collides(once, sprite, x0, y0) {
        let p = choose|p: int| 0 <= p < once.len() && once[p] && #[trigger] sprite_bit(sprite, x0, y0, p);
        assert(!screen[p]);
    }
    if exists|p: int| 0 <= p < screen.len() && !screen[p] && #[trigger] sprite_bit(sprite, x0, y0, p) {
        let p = choose|p: int| 0 <= p < screen.len() && !screen[p] && #[trigger] sprite_bit(sprite, x0, y0, p);
        assert(once[p]);
    }
}

} // verus!
