//! The 64x32 monochrome framebuffer.
use vstd::prelude::*;
use crate::Fault;
use vstd::arithmetic::div_mod::{
    lemma_div_is_ordered, lemma_fundamental_div_mod, lemma_fundamental_div_mod_converse,
    lemma_mod_bound,
};

verus! {

/// Pixels per framebuffer row.
pub const WIDTH: usize = 64;

/// Rows in the framebuffer.
pub const HEIGHT: usize = 32;

/// The framebuffer as the host sees it: pixels in row-major order (pixel
/// `(c, r)` at index `r * 64 + c`), and whether any changed since the host
/// last consumed a frame.
pub struct Frame {
    pub pixels: Seq<bool>,
    pub dirty: bool,
}

/// A 64x32 grid of one-bit pixels with XOR blitting and a dirty flag.
pub struct Graphics {
    gfx: [bool; 2048],
    draw_flag: bool,
}

impl View for Graphics {
    type V = Frame;

    closed spec fn view(&self) -> Frame {
        Frame { pixels: self.gfx@, dirty: self.draw_flag }
    }
}

/// The `n` sprite rows stored from address `i` on.
pub open spec fn sprite_at(mem: Seq<u8>, i: int, n: int) -> Seq<u8> {
    Seq::new(n as nat, |r: int| mem[i + r])
}

/// All pixels off.
pub open spec fn blank() -> Seq<bool> {
    Seq::new(2048, |p: int| false)
}

/// Whether column `col` (0 = leftmost) of a sprite row `b` is set: bit `7 - col`.
pub open spec fn sprite_bit(b: u8, col: int) -> bool {
    b & (0x80u8 >> (col as u8)) != 0
}

/// The sprite row that lands on pixel `p` when the sprite's top is row `y`,
/// counting down from the top and wrapping at the bottom edge.
pub open spec fn sprite_row(y: int, p: int) -> int {
    (p / 64 - y) % 32
}

/// The sprite column that lands on pixel `p` when the sprite's left edge is
/// column `x`, counting rightward and wrapping at the right edge.
pub open spec fn sprite_col(x: int, p: int) -> int {
    (p % 64 - x) % 64
}

/// Whether drawing `sprite` at `(x, y)` toggles pixel `p`.
pub open spec fn sprite_hits(sprite: Seq<u8>, x: int, y: int, p: int) -> bool {
    let dr = sprite_row(y, p);
    let dc = sprite_col(x, p);
    dr < sprite.len() && dc < 8 && sprite_bit(sprite[dr], dc)
}

/// `pixels` after XOR-drawing `sprite` at `(x, y)`.
pub open spec fn blit(pixels: Seq<bool>, sprite: Seq<u8>, x: int, y: int) -> Seq<bool> {
    Seq::new(2048, |p: int| pixels[p] != sprite_hits(sprite, x, y, p))
}

/// Whether drawing `sprite` at `(x, y)` turns off a pixel that was on.
pub open spec fn collides(pixels: Seq<bool>, sprite: Seq<u8>, x: int, y: int) -> bool {
    exists|p: int| 0 <= p < 2048 && pixels[p] && #[trigger] sprite_hits(sprite, x, y, p)
}

/// Part of `sprite_hits`: only the first `k` sprite cells, counted in
/// row-major order, eight to a row.
spec fn hits_before(sprite: Seq<u8>, x: int, y: int, p: int, k: int) -> bool {
    &&& sprite_hits(sprite, x, y, p)
    &&& sprite_row(y, p) * 8 + sprite_col(x, p) < k
}

/// The pixel index that sprite cell `(row, col)` lands on, with `x0 = x % 64`
/// and `y0 = y % 32`; that cell and no other lands there.
proof fn lemma_cell(x: int, y: int, row: int, col: int)
    requires
        x >= 0,
        y >= 0,
        0 <= row < 32,
        0 <= col < 64,
    ensures
        ({
            let q = ((y % 32 + row) % 32) * 64 + (x % 64 + col) % 64;
            &&& 0 <= q < 2048
            &&& sprite_row(y, q) == row
            &&& sprite_col(x, q) == col
            &&& forall|p: int|
                0 <= p < 2048 && sprite_row(y, p) == row && sprite_col(x, p) == col ==> p == q
        }),
{
    let r = (y % 32 + row) % 32;
    let c = (x % 64 + col) % 64;
    let q = r * 64 + c;
    lemma_wrap_back(y, row, 32);
    lemma_wrap_back(x, col, 64);
    lemma_fundamental_div_mod_converse(q, 64, r, c);
    assert forall|p: int|
        0 <= p < 2048 && sprite_row(y, p) == row && sprite_col(x, p) == col implies p == q by {
        lemma_cell_unique(x, y, row, col, p);
    }
}

/// The pixel that sprite cell `(row, col)` lands on is determined by the cell.
proof fn lemma_cell_unique(x: int, y: int, row: int, col: int, p: int)
    requires
        x >= 0,
        y >= 0,
        0 <= row < 32,
        0 <= col < 64,
        0 <= p < 2048,
        sprite_row(y, p) == row,
        sprite_col(x, p) == col,
    ensures
        p == ((y % 32 + row) % 32) * 64 + (x % 64 + col) % 64,
{
    let r = (y % 32 + row) % 32;
    let c = (x % 64 + col) % 64;
    lemma_wrap_back(y, row, 32);
    lemma_wrap_back(x, col, 64);
    lemma_fundamental_div_mod(p, 64);
    lemma_mod_bound(p, 64);
    assert(p / 64 < 32) by {
        lemma_div_is_ordered(p, 2047, 64);
    }
    lemma_same_offset(y, p / 64, r, row, 32);
    lemma_same_offset(x, p % 64, c, col, 64);
}

/// Going `k` steps on from `a` around a cycle of length `m` and then back by
/// `a` leaves `k`.
proof fn lemma_wrap_back(a: int, k: int, m: int)
    requires
        a >= 0,
        0 <= k < m,
        m == 32 || m == 64,
    ensures
        0 <= (a % m + k) % m < m,
        ((a % m + k) % m - a) % m == k,
{
    lemma_fundamental_div_mod(a, m);
    lemma_fundamental_div_mod(a % m + k, m);
    lemma_mod_bound(a, m);
    lemma_mod_bound(a % m + k, m);
    let s = a / m + (a % m + k) / m;
    if m == 32 {
        assert((a % m + k) % m - a == (-s) * 32 + k);
    } else {
        assert((a % m + k) % m - a == (-s) * 64 + k);
    }
    lemma_fundamental_div_mod_converse((a % m + k) % m - a, m, -s, k);
}

/// Two points of `[0, m)` at the same offset `k` from `a` around a cycle of
/// length `m` are the same point.
proof fn lemma_same_offset(a: int, p: int, q: int, k: int, m: int)
    requires
        m == 32 || m == 64,
        0 <= p < m,
        0 <= q < m,
        (q - a) % m == k,
        (p - a) % m == k,
    ensures
        p == q,
{
    lemma_fundamental_div_mod(q - a, m);
    lemma_fundamental_div_mod(p - a, m);
    if m == 32 {
        assert(p - q == ((p - a) / 32 - (q - a) / 32) * 32);
    } else {
        assert(p - q == ((p - a) / 64 - (q - a) / 64) * 64);
    }
}

/// Taking sprite cell `k` (row `k / 8`, column `k % 8`), landing on pixel `q`,
/// into the drawn part changes the hit status of `q` alone.
proof fn lemma_next_cell(sprite: Seq<u8>, x: int, y: int, k: int, q: int)
    requires
        0 <= k,
        0 <= q < 2048,
        sprite_row(y, q) == k / 8,
        sprite_col(x, q) == k % 8,
        forall|p: int|
            0 <= p < 2048 && sprite_row(y, p) == k / 8 && sprite_col(x, p) == k % 8 ==> p == q,
    ensures
        forall|p: int|
            0 <= p < 2048 ==> (#[trigger] hits_before(sprite, x, y, p, k + 1) == (hits_before(
                sprite,
                x,
                y,
                p,
                k,
            ) || (p == q && sprite_hits(sprite, x, y, q)))),
{
    assert forall|p: int| 0 <= p < 2048 implies (#[trigger] hits_before(sprite, x, y, p, k + 1)
        == (hits_before(sprite, x, y, p, k) || (p == q && sprite_hits(sprite, x, y, q)))) by {
        if sprite_hits(sprite, x, y, p) && sprite_row(y, p) * 8 + sprite_col(x, p) == k {
            assert(sprite_row(y, p) == k / 8 && sprite_col(x, p) == k % 8);
        }
    }
}

/// Drawing wraps at the edges: sprite cell `(r, c)` drawn at `(x, y)` lands on
/// column `(x + c) % 64` of row `(y + r) % 32`, and toggles it exactly when bit
/// `7 - c` of sprite row `r` is set. So a sprite drawn at `x = 63` covers
/// columns 63, 0, 1, ..., 6.
pub proof fn lemma_draw_wraps(sprite: Seq<u8>, x: int, y: int, r: int, c: int)
    requires
        x >= 0,
        y >= 0,
        0 <= r < sprite.len(),
        sprite.len() <= 32,
        0 <= c < 8,
    ensures
        sprite_hits(sprite, x, y, ((y + r) % 32) * 64 + (x + c) % 64) == sprite_bit(sprite[r], c),
{
    lemma_cell(x, y, r, c);
    assert(((y % 32 + r) % 32) == (y + r) % 32);
    assert(((x % 64 + c) % 64) == (x + c) % 64);
}

/// Drawing a sprite where all the pixels it covers are off reports no
/// collision; drawing the same sprite at the same place once more reports a
/// collision if the sprite has any bit set, and gives back the pixels as they
/// were before the first draw.
pub proof fn lemma_draw_twice(pixels: Seq<bool>, sprite: Seq<u8>, x: int, y: int)
    requires
        pixels.len() == 2048,
        x >= 0,
        y >= 0,
        sprite.len() <= 32,
        forall|p: int| 0 <= p < 2048 && #[trigger] sprite_hits(sprite, x, y, p) ==> !pixels[p],
    ensures
        !collides(pixels, sprite, x, y),
        collides(blit(pixels, sprite, x, y), sprite, x, y) == (exists|r: int, c: int|
            0 <= r < sprite.len() && 0 <= c < 8 && #[trigger] sprite_bit(sprite[r], c)),
        blit(blit(pixels, sprite, x, y), sprite, x, y) == pixels,
{
    let once = blit(pixels, sprite, x, y);
    assert(blit(once, sprite, x, y) =~= pixels);
    if collides(once, sprite, x, y) {
        let p = choose|p: int| 0 <= p < 2048 && once[p] && #[trigger] sprite_hits(sprite, x, y, p);
        assert(sprite_bit(sprite[sprite_row(y, p)], sprite_col(x, p)));
    }
    if exists|r: int, c: int| 0 <= r < sprite.len() && 0 <= c < 8 && #[trigger] sprite_bit(sprite[r], c) {
        let (r, c) = choose|r: int, c: int|
            0 <= r < sprite.len() && 0 <= c < 8 && #[trigger] sprite_bit(sprite[r], c);
        lemma_draw_wraps(sprite, x, y, r, c);
        let p = ((y + r) % 32) * 64 + (x + c) % 64;
        assert(sprite_hits(sprite, x, y, p) && once[p]);
    }
}

impl Graphics {
    /// A blank framebuffer, marked dirty so that the host shows it once.
    pub fn new() -> (r: Graphics)
        ensures
            r@ == (Frame { pixels: blank(), dirty: true }),
    {
        let r = Graphics { gfx: [false; 2048], draw_flag: true };
        assert(r.gfx@ =~= blank());
        r
    }

    /// Turn every pixel off and mark the framebuffer dirty.
    pub fn clear(&mut self)
        ensures
            final(self)@ == (Frame { pixels: blank(), dirty: true }),
    {
        self.gfx = [false; 2048];
        self.draw_flag = true;
        assert(self.gfx@ =~= blank());
    }

    /// Whether pixel `(x, y)` is on.
    pub fn pixel(&self, x: usize, y: usize) -> (r: bool)
        requires
            x < 64,
            y < 32,
        ensures
            r == self@.pixels[y * 64 + x],
    {
        self.gfx[y * 64 + x]
    }

    /// A copy of all pixels, row-major, without consuming the frame.
    pub fn pixels(&self) -> (r: [bool; 2048])
        ensures
            r@ == self@.pixels,
    {
        self.gfx
    }

    /// Whether some pixel changed since the host last consumed a frame.
    pub fn is_dirty(&self) -> (r: bool)
        ensures
            r == self@.dirty,
    {
        self.draw_flag
    }

    /// Hand the host a frame to show: the pixels if they changed since the
    /// last frame (which clears the dirty flag), `None` if nothing changed.
    pub fn draw(&mut self) -> (r: Option<[bool; 2048]>)
        ensures
            r is Some <==> old(self)@.dirty,
            r matches Some(f) ==> f@ == old(self)@.pixels,
            final(self)@ == (Frame { pixels: old(self)@.pixels, dirty: false }),
    {
        if self.draw_flag {
            self.draw_flag = false;
            Some(self.gfx)
        } else {
            None
        }
    }

    /// XOR-draw the `height`-row sprite stored at `mem[i..i + height]` with its
    /// top-left corner at `(x, y)`, wrapping at the edges, and mark the
    /// framebuffer dirty. Returns whether some pixel that was on went off.
    /// A sprite taller than fifteen rows, or one whose rows run past the end
    /// of memory, is refused and nothing changes.
    pub fn update(&mut self, x: usize, y: usize, height: u8, i: u16, mem: &[u8; 4096]) -> (r:
        Result<bool, Fault>)
        ensures
            height > 15 ==> r == Err::<bool, Fault>(Fault::SpriteTooTall) && final(self)@ == old(
                self,
            )@,
            height <= 15 && height > 0 && i + height > 4096 ==> r == Err::<bool, Fault>(
                Fault::MemoryOutOfBounds,
            ) && final(self)@ == old(self)@,
            height <= 15 && (height == 0 || i + height <= 4096) ==> {
                let sprite = sprite_at(mem@, i as int, height as int);
                &&& r == Ok::<bool, Fault>(collides(old(self)@.pixels, sprite, x as int, y as int))
                &&& final(self)@ == (Frame {
                    pixels: blit(old(self)@.pixels, sprite, x as int, y as int),
                    dirty: true,
                })
            },
    {
        if height > 15 {
            return Err(Fault::SpriteTooTall);
        }
        if height > 0 && i as usize + height as usize > 4096 {
            return Err(Fault::MemoryOutOfBounds);
        }
        let h: usize = height as usize;
        let base: usize = i as usize;
        let x0: usize = x % 64;
        let y0: usize = y % 32;
        let ghost sprite = sprite_at(mem@, i as int, height as int);
        let ghost old_px = self.gfx@;
        let mut collision = false;
        let mut k: usize = 0;
        while k < 8 * h
            invariant
                h == height,
                h <= 15,
                base == i,
                h > 0 ==> base + h <= 4096,
                x0 == x % 64,
                y0 == y % 32,
                sprite == sprite_at(mem@, i as int, height as int),
                old_px.len() == 2048,
                self.gfx@.len() == 2048,
                k <= 8 * h,
                forall|p: int|
                    0 <= p < 2048 ==> #[trigger] self.gfx@[p] == (old_px[p] != hits_before(
                        sprite,
                        x as int,
                        y as int,
                        p,
                        k as int,
                    )),
                collision == exists|p: int|
                    0 <= p < 2048 && old_px[p] && #[trigger] hits_before(
                        sprite,
                        x as int,
                        y as int,
                        p,
                        k as int,
                    ),
            decreases 8 * h - k,
        {
            let row: usize = k / 8;
            let col: u8 = (k % 8) as u8;
            let b = mem[base + row];
            let q: usize = ((y0 + row) % 32) * 64 + (x0 + col as usize) % 64;
            proof {
                lemma_cell(x as int, y as int, row as int, col as int);
                lemma_next_cell(sprite, x as int, y as int, k as int, q as int);
            }
            let ghost before = self.gfx@;
            let ghost was_colliding = collision;
            if b & (0x80u8 >> col) != 0 {
                if self.gfx[q] {
                    collision = true;
                }
                self.gfx[q] = !self.gfx[q];
            }
            proof {
                assert forall|p: int| 0 <= p < 2048 implies #[trigger] self.gfx@[p] == (old_px[p]
                    != hits_before(sprite, x as int, y as int, p, k + 1)) by {
                    if p != q {
                        assert(self.gfx@[p] == before[p]);
                    }
                }
                if sprite_bit(b, col as int) && old_px[q as int] {
                    assert(hits_before(sprite, x as int, y as int, q as int, k + 1));
                }
                if was_colliding {
                    let w = choose|p: int|
                        0 <= p < 2048 && old_px[p] && #[trigger] hits_before(
                            sprite,
                            x as int,
                            y as int,
                            p,
                            k as int,
                        );
                    assert(hits_before(sprite, x as int, y as int, w, k + 1));
                }
                if collision && !was_colliding {
                    assert(hits_before(sprite, x as int, y as int, q as int, k + 1));
                }
                if !collision {
                    assert forall|p: int|
                        0 <= p < 2048 && old_px[p] implies !#[trigger] hits_before(
                        sprite,
                        x as int,
                        y as int,
                        p,
                        k + 1,
                    ) by {
                        if p != q {
                            assert(!hits_before(sprite, x as int, y as int, p, k as int));
                        }
                    }
                }
            }
            k = k + 1;
        }
        self.draw_flag = true;
        proof {
            assert forall|p: int| 0 <= p < 2048 implies #[trigger] hits_before(
                sprite,
                x as int,
                y as int,
                p,
                8 * h,
            ) == sprite_hits(sprite, x as int, y as int, p) by {}
            assert(self.gfx@ =~= blit(old_px, sprite, x as int, y as int));
            if collision {
                let w = choose|p: int|
                    0 <= p < 2048 && old_px[p] && #[trigger] hits_before(
                        sprite,
                        x as int,
                        y as int,
                        p,
                        8 * h,
                    );
                assert(sprite_hits(sprite, x as int, y as int, w));
            }
            if collides(old_px, sprite, x as int, y as int) {
                let w = choose|p: int|
                    0 <= p < 2048 && old_px[p] && #[trigger] sprite_hits(
                        sprite,
                        x as int,
                        y as int,
                        p,
                    );
                assert(hits_before(sprite, x as int, y as int, w, 8 * h));
            }
        }
        Ok(collision)
    }
}

} // verus!
