use vstd::prelude::*;
use vstd::arithmetic::div_mod::{
    lemma_div_pos_is_pos, lemma_fundamental_div_mod, lemma_fundamental_div_mod_converse,
    lemma_mod_pos_bound,
};
use crate::state::SCREEN_CELLS;

verus! {

/// Whether bit `col` of a sprite row is set, counting from the most
/// significant bit.
pub open spec fn row_bit(row_byte: u8, col: int) -> bool {
    row_byte & (0x80u8 >> (col as u8)) != 0
}

/// The sprite column that lands on cell `c` when the sprite's left edge is
/// at `x0`, with horizontal wraparound.
pub open spec fn col_of(c: int, x0: u8) -> int {
    (c % 64 + 64 - x0 % 64) % 64
}

/// The sprite row that lands on cell `c` when the sprite's top edge is at
/// `y0`, with vertical wraparound.
pub open spec fn row_of(c: int, y0: u8) -> int {
    (c / 64 + 32 - y0 % 32) % 32
}

/// The cell where sprite row `row`, column `col` lands.
pub open spec fn cell_at(x0: u8, y0: u8, row: int, col: int) -> int {
    (x0 + col) % 64 + 64 * ((y0 + row) % 32)
}

/// Whether the sprite of `height` rows read from `rows` covers cell `c`
/// with a set bit.
pub open spec fn covers(rows: Seq<u8>, height: int, x0: u8, y0: u8, c: int) -> bool {
    let col = col_of(c, x0);
    let row = row_of(c, y0);
    col < 8 && row < height && row_bit(rows[row], col)
}

/// The framebuffer after drawing: every covered cell is flipped.
pub open spec fn drawn(screen: Seq<bool>, rows: Seq<u8>, height: int, x0: u8, y0: u8) -> Seq<bool> {
    Seq::new(screen.len(), |c: int| screen[c] != covers(rows, height, x0, y0, c))
}

/// Whether drawing flips some cell that was set.
pub open spec fn collides(screen: Seq<bool>, rows: Seq<u8>, height: int, x0: u8, y0: u8) -> bool {
    exists|c: int| 0 <= c < screen.len() && #[trigger] screen[c] && covers(rows, height, x0, y0, c)
}

/// Whether the sprite position that lands on cell `c` comes before
/// row `row`, column `col` in drawing order.
pub open spec fn before(c: int, x0: u8, y0: u8, row: int, col: int) -> bool {
    row_of(c, y0) < row || (row_of(c, y0) == row && col_of(c, x0) < col)
}

/// Cell `c` covered by a sprite position before row `row`, column `col`.
pub open spec fn covered_before(rows: Seq<u8>, height: int, x0: u8, y0: u8, c: int, row: int, col: int) -> bool {
    covers(rows, height, x0, y0, c) && before(c, x0, y0, row, col)
}

/// Offsetting by `v` modulo `m` is undone by offsetting back.
proof fn lemma_wrap(v: int, off: int, p: int, m: int)
    requires
        0 <= v,
        0 < m,
        0 <= off < m,
        0 <= p < m,
    ensures
        ((v + off) % m + m - v % m) % m == off,
        (p + m - v % m) % m == off ==> p == (v + off) % m,
{
    let b = v % m;
    let q = v / m;
    lemma_fundamental_div_mod(v, m);
    lemma_mod_pos_bound(v, m);
    if b + off < m {
        assert(v + off == q * m + (b + off));
        lemma_fundamental_div_mod_converse(v + off, m, q, b + off);
        lemma_fundamental_div_mod_converse(b + off + m - b, m, 1, off);
    } else {
        assert((q + 1) * m == q * m + m) by (nonlinear_arith);
        assert(v + off == (q + 1) * m + (b + off - m));
        lemma_fundamental_div_mod_converse(v + off, m, q + 1, b + off - m);
        lemma_fundamental_div_mod_converse(b + off - m + m - b, m, 0, off);
    }
    if p >= b {
        lemma_fundamental_div_mod_converse(p + m - b, m, 1, p - b);
    } else {
        lemma_fundamental_div_mod_converse(p + m - b, m, 0, p + m - b);
    }
}

/// Each sprite position lands on exactly one cell, and that cell maps back
/// to the position.
pub proof fn lemma_cell_at(x0: u8, y0: u8, row: int, col: int)
    requires
        0 <= col < 8,
        0 <= row < 16,
    ensures
        0 <= cell_at(x0, y0, row, col) < SCREEN_CELLS,
        col_of(cell_at(x0, y0, row, col), x0) == col,
        row_of(cell_at(x0, y0, row, col), y0) == row,
        forall|c: int|
            0 <= c < SCREEN_CELLS && col_of(c, x0) == col && row_of(c, y0) == row
                ==> c == cell_at(x0, y0, row, col),
{
    let cx = (x0 + col) % 64;
    let cy = (y0 + row) % 32;
    let cell = cx + 64 * cy;
    lemma_mod_pos_bound(x0 + col, 64);
    lemma_mod_pos_bound(y0 + row, 32);
    lemma_fundamental_div_mod_converse(cell, 64, cy, cx);
    lemma_wrap(x0 as int, col, cx, 64);
    lemma_wrap(y0 as int, row, cy, 32);
    assert forall|c: int|
        0 <= c < SCREEN_CELLS && col_of(c, x0) == col && row_of(c, y0) == row
            implies c == cell by {
        lemma_fundamental_div_mod(c, 64);
        lemma_mod_pos_bound(c, 64);
        lemma_div_pos_is_pos(c, 64);
        assert(c / 64 < 32);
        lemma_wrap(x0 as int, col, c % 64, 64);
        lemma_wrap(y0 as int, row, c / 64, 32);
    }
}

} // verus!
