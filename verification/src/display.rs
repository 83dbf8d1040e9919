use vstd::prelude::*;
use vstd::arithmetic::div_mod::{
    lemma_mod_add_multiples_vanish, lemma_mod_sub_multiples_vanish, lemma_small_mod,
};

verus! {

/// Width of the display in pixels.
pub open spec fn gfx_width() -> int {
    64
}

/// Height of the display in pixels.
pub open spec fn gfx_height() -> int {
    32
}

/// Number of pixels of the display, stored row-major: the pixel at column
/// `px` of row `py` sits at index `py * 64 + px`.
pub open spec fn gfx_len() -> int {
    gfx_width() * gfx_height()
}

/// An all-off display.
pub open spec fn cleared_gfx() -> Seq<bool> {
    Seq::new(gfx_len() as nat, |p: int| false)
}

/// Whether the sprite `rows`, anchored at (`x0`, `y0`) with per-axis
/// wraparound, puts a set bit on the pixel (`px`, `py`). Each row byte is
/// eight pixels wide; its bit 7 is the leftmost. The anchor is reduced
/// modulo the grid dimensions, and since a sprite is at most eight columns
/// and sixteen rows, no two sprite bits land on the same pixel.
pub open spec fn sprite_covers(rows: Seq<u8>, x0: int, y0: int, px: int, py: int) -> bool {
    let c = (px - x0 % 64) % 64;
    let r = (py - y0 % 32) % 32;
    c < 8 && r < rows.len() && (rows[r] & (0x80u8 >> (c as u8))) != 0
}

/// As `sprite_covers`, restricted to the part of the sprite before row `k`,
/// plus the first `cmax` columns of row `k` itself. With `k` the number of
/// rows and `cmax` zero it is the whole sprite.
pub open spec fn sprite_covers_upto(
    rows: Seq<u8>,
    x0: int,
    y0: int,
    px: int,
    py: int,
    k: int,
    cmax: int,
) -> bool {
    let c = (px - x0 % 64) % 64;
    let r = (py - y0 % 32) % 32;
    c < 8 && r < rows.len() && (r < k || (r == k && c < cmax)) && (rows[r] & (0x80u8 >> (
    c as u8))) != 0
}

/// The whole sprite is the limit of its prefixes.
pub proof fn lemma_sprite_covers_full(rows: Seq<u8>, x0: int, y0: int, px: int, py: int)
    ensures
        sprite_covers(rows, x0, y0, px, py) == sprite_covers_upto(
            rows,
            x0,
            y0,
            px,
            py,
            rows.len() as int,
            0,
        ),
{
}

/// The display after XOR-compositing the sprite `rows` at (`x0`, `y0`):
/// every pixel the sprite covers with a set bit is toggled.
pub open spec fn draw_gfx(gfx: Seq<bool>, rows: Seq<u8>, x0: int, y0: int) -> Seq<bool> {
    Seq::new(gfx.len(), |p: int| gfx[p] != sprite_covers(rows, x0, y0, p % 64, p / 64))
}

/// Whether compositing the sprite `rows` at (`x0`, `y0`) turns some lit
/// pixel off: the collision the draw instruction reports in VF.
pub open spec fn draw_collision(gfx: Seq<bool>, rows: Seq<u8>, x0: int, y0: int) -> bool {
    exists|px: int, py: int|
        0 <= px < 64 && 0 <= py < 32 && gfx[py * 64 + px] && #[trigger] sprite_covers(
            rows,
            x0,
            y0,
            px,
            py,
        )
}

/// Whether the part of the sprite before row `k`, plus the first `cmax`
/// columns of row `k`, turns some lit pixel of `gfx` off.
pub open spec fn collision_upto(
    gfx: Seq<bool>,
    rows: Seq<u8>,
    x0: int,
    y0: int,
    k: int,
    cmax: int,
) -> bool {
    exists|px: int, py: int|
        0 <= px < 64 && 0 <= py < 32 && gfx[py * 64 + px] && #[trigger] sprite_covers_upto(
            rows,
            x0,
            y0,
            px,
            py,
            k,
            cmax,
        )
}

/// A collision of the whole sprite is a collision of the full prefix.
pub proof fn lemma_collision_full(gfx: Seq<bool>, rows: Seq<u8>, x0: int, y0: int)
    ensures
        collision_upto(gfx, rows, x0, y0, rows.len() as int, 0) == draw_collision(
            gfx,
            rows,
            x0,
            y0,
        ),
{
    assert forall|px: int, py: int| 0 <= px < 64 && 0 <= py < 32 implies #[trigger] sprite_covers_upto(
        rows,
        x0,
        y0,
        px,
        py,
        rows.len() as int,
        0,
    ) == sprite_covers(rows, x0, y0, px, py) by {
        lemma_sprite_covers_full(rows, x0, y0, px, py);
    }
    if collision_upto(gfx, rows, x0, y0, rows.len() as int, 0) {
        let (px, py) = choose|px: int, py: int|
            0 <= px < 64 && 0 <= py < 32 && gfx[py * 64 + px] && #[trigger] sprite_covers_upto(
                rows,
                x0,
                y0,
                px,
                py,
                rows.len() as int,
                0,
            );
        assert(sprite_covers(rows, x0, y0, px, py));
    }
    if draw_collision(gfx, rows, x0, y0) {
        let (px, py) = choose|px: int, py: int|
            0 <= px < 64 && 0 <= py < 32 && gfx[py * 64 + px] && #[trigger] sprite_covers(
                rows,
                x0,
                y0,
                px,
                py,
            );
        assert(sprite_covers_upto(rows, x0, y0, px, py, rows.len() as int, 0));
    }
}

/// A whole processed row is the same prefix as the next row with no columns.
pub proof fn lemma_covers_row_roll(
    rows: Seq<u8>,
    x0: int,
    y0: int,
    px: int,
    py: int,
    k: int,
)
    ensures
        sprite_covers_upto(rows, x0, y0, px, py, k, 8) == sprite_covers_upto(
            rows,
            x0,
            y0,
            px,
            py,
            k + 1,
            0,
        ),
{
}

/// Taking one more column of row `k` into the prefix changes it at exactly
/// one pixel: the one where that column lands, which carries the row's bit;
/// every other pixel is covered as before, and the shorter prefix does not
/// cover the landing pixel at all.
pub proof fn lemma_covers_step(rows: Seq<u8>, x0: int, y0: int, k: int, c: int)
    requires
        0 <= c < 8,
        0 <= k < rows.len(),
        rows.len() <= 16,
    ensures
        forall|px: int, py: int|
            0 <= px < 64 && 0 <= py < 32 && !(px == (x0 % 64 + c) % 64 && py == (y0 % 32 + k)
                % 32) ==> sprite_covers_upto(rows, x0, y0, px, py, k, c + 1)
                == #[trigger] sprite_covers_upto(rows, x0, y0, px, py, k, c),
        sprite_covers_upto(rows, x0, y0, (x0 % 64 + c) % 64, (y0 % 32 + k) % 32, k, c + 1) == ((
        rows[k] & (0x80u8 >> (c as u8))) != 0),
        !sprite_covers_upto(rows, x0, y0, (x0 % 64 + c) % 64, (y0 % 32 + k) % 32, k, c),
{
    let xb = x0 % 64;
    let yb = y0 % 32;
    let pxt = (xb + c) % 64;
    let pyt = (yb + k) % 32;
    lemma_mod_window(xb, c, 64);
    lemma_mod_window(yb, k, 32);
    assert forall|px: int, py: int|
        0 <= px < 64 && 0 <= py < 32 && !(px == pxt && py == pyt) implies sprite_covers_upto(
        rows,
        x0,
        y0,
        px,
        py,
        k,
        c + 1,
    ) == sprite_covers_upto(rows, x0, y0, px, py, k, c) by {
        let cc = (px - xb) % 64;
        let rr = (py - yb) % 32;
        if cc == c && rr == k {
            lemma_mod_locate(xb, px, 64);
            lemma_mod_locate(yb, py, 32);
            assert(px == pxt);
            assert(py == pyt);
        }
    }
}

/// The empty prefix covers nothing.
pub proof fn lemma_covers_zero(rows: Seq<u8>, x0: int, y0: int, px: int, py: int)
    ensures
        !sprite_covers_upto(rows, x0, y0, px, py, 0, 0),
{
}

/// For an anchor `base` and an offset `off` both below the modulus, wrapping
/// the sum and measuring the distance back from the anchor recovers the
/// offset.
pub proof fn lemma_mod_window(base: int, off: int, m: int)
    requires
        0 <= base < m,
        0 <= off < m,
    ensures
        ((base + off) % m - base) % m == off,
{
    if base + off < m {
        lemma_small_mod((base + off) as nat, m as nat);
        lemma_small_mod(off as nat, m as nat);
    } else {
        lemma_mod_sub_multiples_vanish(base + off, m);
        lemma_small_mod((base + off - m) as nat, m as nat);
        lemma_mod_sub_multiples_vanish(off, m);
        lemma_small_mod(off as nat, m as nat);
    }
}

/// For a pixel coordinate `p` and an anchor `base` both below the modulus,
/// the wrapped distance from the anchor leads back to the pixel.
pub proof fn lemma_mod_locate(base: int, p: int, m: int)
    requires
        0 <= base < m,
        0 <= p < m,
    ensures
        (base + ((p - base) % m)) % m == p,
{
    if p >= base {
        lemma_small_mod((p - base) as nat, m as nat);
        lemma_small_mod(p as nat, m as nat);
    } else {
        lemma_mod_add_multiples_vanish(p - base, m);
        lemma_small_mod((p - base + m) as nat, m as nat);
        assert((p - base) % m == p - base + m);
        lemma_mod_add_multiples_vanish(p, m);
        lemma_small_mod(p as nat, m as nat);
    }
}

/// XOR compositing is an involution: drawing the same sprite twice at the
/// same anchor restores the display exactly as it was.
pub proof fn lemma_draw_twice_restores(gfx: Seq<bool>, rows: Seq<u8>, x0: int, y0: int)
    ensures
        draw_gfx(draw_gfx(gfx, rows, x0, y0), rows, x0, y0) =~= gfx,
{
    let g1 = draw_gfx(gfx, rows, x0, y0);
    let g2 = draw_gfx(g1, rows, x0, y0);
    assert forall|p: int| 0 <= p < gfx.len() implies g2[p] == gfx[p] by {
        assert(g1[p] == (gfx[p] != sprite_covers(rows, x0, y0, p % 64, p / 64)));
    }
}

/// Clearing the display, then drawing a sprite and drawing the identical
/// sprite again at the same coordinates, leaves an all-off grid.
pub proof fn lemma_draw_twice_clears(rows: Seq<u8>, x0: int, y0: int)
    ensures
        draw_gfx(draw_gfx(cleared_gfx(), rows, x0, y0), rows, x0, y0) =~= cleared_gfx(),
{
    lemma_draw_twice_restores(cleared_gfx(), rows, x0, y0);
}

} // verus!
