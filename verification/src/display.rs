use vstd::prelude::*;

use vstd::arithmetic::div_mod::lemma_fundamental_div_mod;

use crate::{SCREEN_HEIGHT, SCREEN_WIDTH};

verus! {

/// Whether bit `c` (counted from the left, 0..8) of sprite row byte `b` is
/// set. Bit 0 is the most significant bit: the leftmost pixel of the row.
pub open spec fn byte_bit(b: u8, c: int) -> bool {
    (b >> ((7 - c) as u8)) & 1 == 1
}

/// Whether column `c` of a sprite row drawn at row `yy` with left edge `x`
/// lands on framebuffer cell `p` with its bit set. Columns wrap at the
/// right screen edge.
pub open spec fn col_covers(x: u8, yy: int, b: u8, c: int, p: int) -> bool {
    p == yy * 64 + (x + c) % 64 && byte_bit(b, c)
}

/// Whether one of the first `k` columns of sprite row byte `b`, drawn at row
/// `yy` with left edge `x`, toggles framebuffer cell `p`.
pub open spec fn row_covers_upto(x: u8, yy: int, b: u8, k: int, p: int) -> bool {
    exists|c: int| 0 <= c < k && #[trigger] col_covers(x, yy, b, c, p)
}

/// Whether sprite row byte `b`, drawn at row `yy` with left edge `x`,
/// toggles framebuffer cell `p`.
pub open spec fn row_covers(x: u8, yy: int, b: u8, p: int) -> bool {
    row_covers_upto(x, yy, b, 8, p)
}

/// The framebuffer row that sprite row `r` lands on when the sprite is drawn
/// at vertical position `y`: rows wrap at the bottom screen edge.
pub open spec fn row_of(y: u8, r: int) -> int {
    (y + r) % 32
}

/// Whether sprite row `r` of sprite `s`, drawn at `(x, y)`, toggles
/// framebuffer cell `p`.
pub open spec fn row_covers_at(x: u8, y: u8, s: Seq<u8>, r: int, p: int) -> bool {
    row_covers(x, row_of(y, r), s[r], p)
}

/// Whether one of the first `k` rows of sprite `s`, drawn at `(x, y)`,
/// toggles framebuffer cell `p`.
pub open spec fn sprite_covers_upto(x: u8, y: u8, s: Seq<u8>, k: int, p: int) -> bool {
    exists|r: int| 0 <= r < k && #[trigger] row_covers_at(x, y, s, r, p)
}

/// Whether drawing sprite `s` at `(x, y)` toggles framebuffer cell `p`.
/// This is the whole geometry of the draw instruction: row `r`, column `c`
/// of the sprite lands on cell `((y + r) % 32) * 64 + (x + c) % 64`.
pub open spec fn sprite_covers(x: u8, y: u8, s: Seq<u8>, p: int) -> bool {
    sprite_covers_upto(x, y, s, s.len() as int, p)
}

/// Two distinct numbers less than a modulus apart have distinct remainders.
proof fn lemma_mod_small_distinct(a: int, b: int, m: int)
    requires
        0 <= a < b,
        b - a < m,
    ensures
        a % m != b % m,
{
    lemma_fundamental_div_mod(a, m);
    lemma_fundamental_div_mod(b, m);
    if a % m == b % m {
        let q = b / m - a / m;
        assert(m * q == b - a) by (nonlinear_arith)
            requires
                b == m * (b / m) + b % m,
                a == m * (a / m) + a % m,
                a % m == b % m,
                q == b / m - a / m,
        ;
        assert(q >= 1 ==> m * q >= m) by (nonlinear_arith)
            requires
                m >= 1,
        ;
        assert(q <= 0 ==> m * q <= 0) by (nonlinear_arith)
            requires
                m >= 1,
        ;
        assert(false);
    }
}

/// A sprite row drawn at row `yy` only toggles cells of that framebuffer row.
proof fn lemma_row_covers_range(x: u8, yy: int, b: u8, p: int)
    requires
        row_covers(x, yy, b, p),
    ensures
        yy * 64 <= p < yy * 64 + 64,
{
    let c = choose|c: int| 0 <= c < 8 && #[trigger] col_covers(x, yy, b, c, p);
    assert(0 <= (x + c) % 64 < 64);
}

/// Extending a row prefix by one column adds exactly that column's cover.
proof fn lemma_row_upto_step(x: u8, yy: int, b: u8, k: int, p: int)
    requires
        0 <= k,
    ensures
        row_covers_upto(x, yy, b, k + 1, p) == (row_covers_upto(x, yy, b, k, p) || col_covers(
            x,
            yy,
            b,
            k,
            p,
        )),
{
    if row_covers_upto(x, yy, b, k + 1, p) {
        let c = choose|c: int| 0 <= c < k + 1 && #[trigger] col_covers(x, yy, b, c, p);
        if c < k {
            assert(row_covers_upto(x, yy, b, k, p));
        }
    }
    if row_covers_upto(x, yy, b, k, p) {
        let c = choose|c: int| 0 <= c < k && #[trigger] col_covers(x, yy, b, c, p);
        assert(row_covers_upto(x, yy, b, k + 1, p));
    }
    if col_covers(x, yy, b, k, p) {
        assert(row_covers_upto(x, yy, b, k + 1, p));
    }
}

/// Within one sprite row, distinct columns land on distinct cells: the cell
/// of column `k` is not covered by any earlier column.
proof fn lemma_col_fresh(x: u8, yy: int, b: u8, k: int)
    requires
        0 <= k < 8,
    ensures
        !row_covers_upto(x, yy, b, k, yy * 64 + (x + k) % 64),
{
    let p = yy * 64 + (x + k) % 64;
    if row_covers_upto(x, yy, b, k, p) {
        let c = choose|c: int| 0 <= c < k && #[trigger] col_covers(x, yy, b, c, p);
        lemma_mod_small_distinct(x + c, x + k, 64);
    }
}

/// Extending a sprite prefix by one row adds exactly that row's cover.
proof fn lemma_sprite_upto_step(x: u8, y: u8, s: Seq<u8>, k: int, p: int)
    requires
        0 <= k,
    ensures
        sprite_covers_upto(x, y, s, k + 1, p) == (sprite_covers_upto(x, y, s, k, p)
            || row_covers_at(x, y, s, k, p)),
{
    if sprite_covers_upto(x, y, s, k + 1, p) {
        let r = choose|r: int| 0 <= r < k + 1 && #[trigger] row_covers_at(x, y, s, r, p);
        if r < k {
            assert(sprite_covers_upto(x, y, s, k, p));
        }
    }
    if sprite_covers_upto(x, y, s, k, p) {
        let r = choose|r: int| 0 <= r < k && #[trigger] row_covers_at(x, y, s, r, p);
        assert(sprite_covers_upto(x, y, s, k + 1, p));
    }
    if row_covers_at(x, y, s, k, p) {
        assert(sprite_covers_upto(x, y, s, k + 1, p));
    }
}

/// Sprites at most 32 rows tall land each row on its own framebuffer row, so
/// no cell is covered both by row `k` and by an earlier row.
proof fn lemma_rows_disjoint(x: u8, y: u8, s: Seq<u8>, k: int, p: int)
    requires
        0 <= k < s.len() <= 32,
    ensures
        !(sprite_covers_upto(x, y, s, k, p) && row_covers_at(x, y, s, k, p)),
{
    if sprite_covers_upto(x, y, s, k, p) && row_covers_at(x, y, s, k, p) {
        let r = choose|r: int| 0 <= r < k && #[trigger] row_covers_at(x, y, s, r, p);
        lemma_row_covers_range(x, row_of(y, r), s[r], p);
        lemma_row_covers_range(x, row_of(y, k), s[k], p);
        lemma_mod_small_distinct(y + r, y + k, 32);
    }
}

/// The 64x32 monochrome framebuffer, row-major, with the dirty flag the
/// external renderer consumes.
///
/// Only the sprite-draw instruction and the clear instruction mutate the
/// grid. Drawing XOR-composites sprite bits onto the grid, wrapping at both
/// screen edges, and reports a collision when it turns any lit cell off.
pub struct Display {
    pub pixels: Vec<bool>,
    pub draw_flag: bool,
}

impl Display {
    /// The framebuffer is well formed when it spans exactly 64 * 32 cells.
    pub open spec fn wf(self) -> bool {
        self.pixels@.len() == 2048
    }

    /// A fresh framebuffer: every cell off, dirty flag clear.
    pub fn new() -> (r: Display)
        ensures
            r.wf(),
            forall|p: int| 0 <= p < 2048 ==> !r.pixels@[p],
            !r.draw_flag,
    {
        let pixels: Vec<bool> = vec![false; SCREEN_WIDTH * SCREEN_HEIGHT];
        Display { pixels, draw_flag: false }
    }

    /// Turn every cell off. The dirty flag is the caller's concern.
    pub fn clear(&mut self)
        ensures
            final(self).wf(),
            forall|p: int| 0 <= p < 2048 ==> !final(self).pixels@[p],
            final(self).draw_flag == old(self).draw_flag,
    {
        let pixels: Vec<bool> = vec![false; SCREEN_WIDTH * SCREEN_HEIGHT];
        self.pixels = pixels;
    }

    pub fn set_draw_flag(&mut self, flag: bool)
        ensures
            final(self).pixels@ == old(self).pixels@,
            final(self).draw_flag == flag,
    {
        self.draw_flag = flag;
    }

    /// Read and reset the dirty flag, for the external renderer.
    pub fn take_dirty(&mut self) -> (r: bool)
        ensures
            r == old(self).draw_flag,
            !final(self).draw_flag,
            final(self).pixels@ == old(self).pixels@,
    {
        let r = self.draw_flag;
        self.draw_flag = false;
        r
    }

    /// XOR one sprite row byte onto framebuffer row `yy`, left edge at
    /// column `x % 64`, and report whether any lit cell was turned off.
    fn draw_byte(&mut self, x: u8, yy: usize, b: u8) -> (collision: bool)
        requires
            old(self).wf(),
            yy < 32,
        ensures
            final(self).wf(),
            final(self).draw_flag == old(self).draw_flag,
            forall|p: int|
                0 <= p < 2048 ==> final(self).pixels@[p] == (old(self).pixels@[p] != row_covers(
                    x,
                    yy as int,
                    b,
                    p,
                )),
            collision == exists|p: int|
                0 <= p < 2048 && old(self).pixels@[p] && #[trigger] row_covers(x, yy as int, b, p),
    {
        let ghost orig: Display = *self;
        let mut collision = false;
        let mut c: usize = 0;
        while c < 8
            invariant
                self.wf(),
                yy < 32,
                c <= 8,
                orig.wf(),
                self.draw_flag == orig.draw_flag,
                forall|p: int|
                    0 <= p < 2048 ==> self.pixels@[p] == (orig.pixels@[p] != row_covers_upto(
                        x,
                        yy as int,
                        b,
                        c as int,
                        p,
                    )),
                collision == exists|p: int|
                    0 <= p < 2048 && orig.pixels@[p] && #[trigger] row_covers_upto(
                        x,
                        yy as int,
                        b,
                        c as int,
                        p,
                    ),
            decreases 8 - c,
        {
            let sh: u8 = (7 - c) as u8;
            let bit = (b >> sh) & 1;
            if bit == 1 {
                let xx = (x as usize + c) % 64;
                let idx = yy * 64 + xx;
                proof {
                    assert(byte_bit(b, c as int));
                    assert(idx == yy as int * 64 + (x + c as int) % 64);
                    assert(col_covers(x, yy as int, b, c as int, idx as int));
                    lemma_col_fresh(x, yy as int, b, c as int);
                }
                let cur = self.pixels[idx];
                if cur {
                    collision = true;
                }
                self.pixels.set(idx, !cur);
                proof {
                    assert forall|p: int|
                        0 <= p < 2048 implies self.pixels@[p] == (orig.pixels@[p]
                        != row_covers_upto(x, yy as int, b, c as int + 1, p)) by {
                        lemma_row_upto_step(x, yy as int, b, c as int, p);
                    }
                    assert(collision == exists|p: int|
                        0 <= p < 2048 && orig.pixels@[p] && #[trigger] row_covers_upto(
                            x,
                            yy as int,
                            b,
                            c as int + 1,
                            p,
                        )) by {
                        lemma_row_upto_step(x, yy as int, b, c as int, idx as int);
                        if cur {
                            assert(orig.pixels@[idx as int] && row_covers_upto(
                                x,
                                yy as int,
                                b,
                                c as int + 1,
                                idx as int,
                            ));
                        } else {
                            if exists|p: int|
                                0 <= p < 2048 && orig.pixels@[p] && #[trigger] row_covers_upto(
                                    x,
                                    yy as int,
                                    b,
                                    c as int + 1,
                                    p,
                                ) {
                                let p = choose|p: int|
                                    0 <= p < 2048 && orig.pixels@[p]
                                        && #[trigger] row_covers_upto(
                                        x,
                                        yy as int,
                                        b,
                                        c as int + 1,
                                        p,
                                    );
                                lemma_row_upto_step(x, yy as int, b, c as int, p);
                                assert(row_covers_upto(x, yy as int, b, c as int, p));
                            }
                            if collision {
                                let p = choose|p: int|
                                    0 <= p < 2048 && orig.pixels@[p]
                                        && #[trigger] row_covers_upto(
                                        x,
                                        yy as int,
                                        b,
                                        c as int,
                                        p,
                                    );
                                lemma_row_upto_step(x, yy as int, b, c as int, p);
                                assert(row_covers_upto(x, yy as int, b, c as int + 1, p));
                            }
                        }
                    }
                }
            } else {
                proof {
                    assert(!byte_bit(b, c as int));
                    assert forall|p: int|
                        0 <= p < 2048 implies self.pixels@[p] == (orig.pixels@[p]
                        != row_covers_upto(x, yy as int, b, c as int + 1, p)) by {
                        lemma_row_upto_step(x, yy as int, b, c as int, p);
                    }
                    assert(collision == exists|p: int|
                        0 <= p < 2048 && orig.pixels@[p] && #[trigger] row_covers_upto(
                            x,
                            yy as int,
                            b,
                            c as int + 1,
                            p,
                        )) by {
                        if collision {
                            let p = choose|p: int|
                                0 <= p < 2048 && orig.pixels@[p] && #[trigger] row_covers_upto(
                                    x,
                                    yy as int,
                                    b,
                                    c as int,
                                    p,
                                );
                            lemma_row_upto_step(x, yy as int, b, c as int, p);
                            assert(row_covers_upto(x, yy as int, b, c as int + 1, p));
                        } else {
                            if exists|p: int|
                                0 <= p < 2048 && orig.pixels@[p] && #[trigger] row_covers_upto(
                                    x,
                                    yy as int,
                                    b,
                                    c as int + 1,
                                    p,
                                ) {
                                let p = choose|p: int|
                                    0 <= p < 2048 && orig.pixels@[p]
                                        && #[trigger] row_covers_upto(
                                        x,
                                        yy as int,
                                        b,
                                        c as int + 1,
                                        p,
                                    );
                                lemma_row_upto_step(x, yy as int, b, c as int, p);
                                assert(row_covers_upto(x, yy as int, b, c as int, p));
                            }
                        }
                    }
                }
            }
            c = c + 1;
        }
        proof {
            if collision {
                let p = choose|p: int|
                    0 <= p < 2048 && orig.pixels@[p] && #[trigger] row_covers_upto(
                        x,
                        yy as int,
                        b,
                        8,
                        p,
                    );
                assert(row_covers(x, yy as int, b, p));
            }
            if exists|p: int|
                0 <= p < 2048 && orig.pixels@[p] && #[trigger] row_covers(x, yy as int, b, p) {
                let p = choose|p: int|
                    0 <= p < 2048 && orig.pixels@[p] && #[trigger] row_covers(x, yy as int, b, p);
                assert(row_covers_upto(x, yy as int, b, 8, p));
            }
        }
        collision
    }

    /// XOR-composite a sprite onto the grid at `(x, y)`, wrapping at both
    /// screen edges, and report whether any lit cell was turned off.
    ///
    /// Every cell covered by a set sprite bit toggles; every other cell
    /// keeps its value. The dirty flag is the caller's concern.
    pub fn draw(&mut self, x: u8, y: u8, sprite: &Vec<u8>) -> (collision: bool)
        requires
            old(self).wf(),
            sprite@.len() <= 32,
        ensures
            final(self).wf(),
            final(self).draw_flag == old(self).draw_flag,
            forall|p: int|
                0 <= p < 2048 ==> final(self).pixels@[p] == (old(self).pixels@[p]
                    != sprite_covers(x, y, sprite@, p)),
            collision == exists|p: int|
                0 <= p < 2048 && old(self).pixels@[p] && #[trigger] sprite_covers(
                    x,
                    y,
                    sprite@,
                    p,
                ),
    {
        let ghost orig: Display = *self;
        let mut collision = false;
        let mut r: usize = 0;
        while r < sprite.len()
            invariant
                self.wf(),
                orig.wf(),
                r <= sprite@.len() <= 32,
                self.draw_flag == orig.draw_flag,
                forall|p: int|
                    0 <= p < 2048 ==> self.pixels@[p] == (orig.pixels@[p] != sprite_covers_upto(
                        x,
                        y,
                        sprite@,
                        r as int,
                        p,
                    )),
                collision == exists|p: int|
                    0 <= p < 2048 && orig.pixels@[p] && #[trigger] sprite_covers_upto(
                        x,
                        y,
                        sprite@,
                        r as int,
                        p,
                    ),
            decreases sprite@.len() - r,
        {
            let ghost mid: Display = *self;
            let ghost old_collision: bool = collision;
            let yy = (y as usize + r) % 32;
            let b = sprite[r];
            let cb = self.draw_byte(x, yy, b);
            collision = collision || cb;
            proof {
                assert(yy as int == row_of(y, r as int));
                assert forall|p: int|
                    0 <= p < 2048 implies self.pixels@[p] == (orig.pixels@[p]
                    != sprite_covers_upto(x, y, sprite@, r as int + 1, p)) by {
                    lemma_sprite_upto_step(x, y, sprite@, r as int, p);
                    lemma_rows_disjoint(x, y, sprite@, r as int, p);
                    assert(row_covers(x, yy as int, b, p) == row_covers_at(
                        x,
                        y,
                        sprite@,
                        r as int,
                        p,
                    ));
                }
                assert(collision == exists|p: int|
                    0 <= p < 2048 && orig.pixels@[p] && #[trigger] sprite_covers_upto(
                        x,
                        y,
                        sprite@,
                        r as int + 1,
                        p,
                    )) by {
                    if old_collision {
                        let p = choose|p: int|
                            0 <= p < 2048 && orig.pixels@[p] && #[trigger] sprite_covers_upto(
                                x,
                                y,
                                sprite@,
                                r as int,
                                p,
                            );
                        lemma_sprite_upto_step(x, y, sprite@, r as int, p);
                        assert(sprite_covers_upto(x, y, sprite@, r as int + 1, p));
                    } else if cb {
                        let p = choose|p: int|
                            0 <= p < 2048 && mid.pixels@[p] && #[trigger] row_covers(
                                x,
                                yy as int,
                                b,
                                p,
                            );
                        lemma_rows_disjoint(x, y, sprite@, r as int, p);
                        assert(row_covers_at(x, y, sprite@, r as int, p));
                        assert(!sprite_covers_upto(x, y, sprite@, r as int, p));
                        assert(orig.pixels@[p]);
                        lemma_sprite_upto_step(x, y, sprite@, r as int, p);
                        assert(sprite_covers_upto(x, y, sprite@, r as int + 1, p));
                    } else {
                        if exists|p: int|
                            0 <= p < 2048 && orig.pixels@[p] && #[trigger] sprite_covers_upto(
                                x,
                                y,
                                sprite@,
                                r as int + 1,
                                p,
                            ) {
                            let p = choose|p: int|
                                0 <= p < 2048 && orig.pixels@[p] && #[trigger] sprite_covers_upto(
                                    x,
                                    y,
                                    sprite@,
                                    r as int + 1,
                                    p,
                                );
                            lemma_sprite_upto_step(x, y, sprite@, r as int, p);
                            lemma_rows_disjoint(x, y, sprite@, r as int, p);
                            if row_covers_at(x, y, sprite@, r as int, p) {
                                assert(mid.pixels@[p]);
                                assert(row_covers(x, yy as int, b, p));
                                assert(cb);
                            }
                        }
                    }
                }
            }
            r = r + 1;
        }
        proof {
            let ghost n = sprite@.len() as int;
            if collision {
                let p = choose|p: int|
                    0 <= p < 2048 && orig.pixels@[p] && #[trigger] sprite_covers_upto(
                        x,
                        y,
                        sprite@,
                        n,
                        p,
                    );
                assert(sprite_covers(x, y, sprite@, p));
            }
            if exists|p: int|
                0 <= p < 2048 && orig.pixels@[p] && #[trigger] sprite_covers(x, y, sprite@, p) {
                let p = choose|p: int|
                    0 <= p < 2048 && orig.pixels@[p] && #[trigger] sprite_covers(x, y, sprite@, p);
                assert(sprite_covers_upto(x, y, sprite@, n, p));
            }
        }
        collision
    }
}

/// Law: drawing the same sprite twice at the same coordinates restores the
/// framebuffer to its pre-draw state, and the second draw reports a
/// collision exactly when some covered cell was off before the first draw
/// (the first draw turned every such cell on).
pub proof fn lemma_draw_twice(
    before: Seq<bool>,
    once: Seq<bool>,
    twice: Seq<bool>,
    x: u8,
    y: u8,
    s: Seq<u8>,
    second_collision: bool,
)
    requires
        before.len() == 2048,
        once.len() == 2048,
        twice.len() == 2048,
        forall|p: int| 0 <= p < 2048 ==> once[p] == (before[p] != sprite_covers(x, y, s, p)),
        forall|p: int| 0 <= p < 2048 ==> twice[p] == (once[p] != sprite_covers(x, y, s, p)),
        second_collision == exists|p: int|
            0 <= p < 2048 && once[p] && #[trigger] sprite_covers(x, y, s, p),
    ensures
        twice =~= before,
        second_collision == exists|p: int|
            0 <= p < 2048 && !before[p] && #[trigger] sprite_covers(x, y, s, p),
{
    if second_collision {
        let p = choose|p: int| 0 <= p < 2048 && once[p] && #[trigger] sprite_covers(x, y, s, p);
        assert(!before[p] && sprite_covers(x, y, s, p));
    }
    if exists|p: int| 0 <= p < 2048 && !before[p] && #[trigger] sprite_covers(x, y, s, p) {
        let p = choose|p: int| 0 <= p < 2048 && !before[p] && #[trigger] sprite_covers(x, y, s, p);
        assert(once[p] && sprite_covers(x, y, s, p));
    }
}

} // verus!
