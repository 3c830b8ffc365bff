//! Proof support for sprite drawing: the pixels a sprite's cells land on
//! are pairwise distinct, so XOR-flipping them one cell at a time in
//! row-major order realises the per-pixel description in `step`.

use vstd::prelude::*;
use vstd::arithmetic::div_mod::lemma_fundamental_div_mod;
use vstd::arithmetic::div_mod::lemma_mod_division_less_than_divisor;

use crate::step::draw_before;
use crate::step::draw_collision_upto;
use crate::step::draw_hit_upto;
use crate::step::draw_target;
use crate::step::sprite_bit;
use crate::step::wrap_x;
use crate::step::wrap_y;

verus! {

/// The pixel a sprite cell lands on is a valid framebuffer index.
pub proof fn lemma_target_bounds(x0: int, y0: int, row: int, col: int)
    requires
        0 <= x0,
        0 <= y0,
        0 <= row,
        0 <= col,
    ensures
        0 <= wrap_x(x0, col) < 64,
        0 <= wrap_y(y0, row) < 32,
        0 <= draw_target(x0, y0, row, col) < 2048,
{
    lemma_mod_division_less_than_divisor(x0 + col, 64);
    lemma_mod_division_less_than_divisor(y0 + row, 32);
}

/// Distinct cells of one sprite land on distinct pixels: 8 columns never
/// span the 64-pixel width and at most 15 rows never span the 32-pixel
/// height, so wrapping cannot fold two cells together.
pub proof fn lemma_target_injective(x0: int, y0: int, r1: int, c1: int, r2: int, c2: int)
    requires
        0 <= x0,
        0 <= y0,
        0 <= r1 < 32,
        0 <= c1 < 8,
        0 <= r2 < 32,
        0 <= c2 < 8,
        draw_target(x0, y0, r1, c1) == draw_target(x0, y0, r2, c2),
    ensures
        r1 == r2,
        c1 == c2,
{
    lemma_mod_division_less_than_divisor(x0 + c1, 64);
    lemma_mod_division_less_than_divisor(x0 + c2, 64);
    lemma_mod_division_less_than_divisor(y0 + r1, 32);
    lemma_mod_division_less_than_divisor(y0 + r2, 32);
    assert(wrap_x(x0, c1) == wrap_x(x0, c2) && wrap_y(y0, r1) == wrap_y(y0, r2));
    lemma_fundamental_div_mod(x0 + c1, 64);
    lemma_fundamental_div_mod(x0 + c2, 64);
    let qc1 = (x0 + c1) / 64;
    let qc2 = (x0 + c2) / 64;
    assert(c1 - c2 == 64 * qc1 - 64 * qc2);
    assert(64 * qc1 - 64 * qc2 == 64 * (qc1 - qc2)) by (nonlinear_arith);
    assert(qc1 == qc2);
    lemma_fundamental_div_mod(y0 + r1, 32);
    lemma_fundamental_div_mod(y0 + r2, 32);
    let qr1 = (y0 + r1) / 32;
    let qr2 = (y0 + r2) / 32;
    assert(r1 - r2 == 32 * qr1 - 32 * qr2);
    assert(32 * qr1 - 32 * qr2 == 32 * (qr1 - qr2)) by (nonlinear_arith);
    assert(qr1 == qr2);
}

/// No cell drawn before (`row`, `col`) lands on the pixel that cell
/// (`row`, `col`) itself lands on.
pub proof fn lemma_no_prior_hit(ram: Seq<u8>, i: int, x0: int, y0: int, row: int, col: int)
    requires
        0 <= x0,
        0 <= y0,
        0 <= row < 32,
        0 <= col < 8,
    ensures
        !draw_hit_upto(ram, i, x0, y0, row, col, draw_target(x0, y0, row, col)),
{
    let p = draw_target(x0, y0, row, col);
    if draw_hit_upto(ram, i, x0, y0, row, col, p) {
        let (r, c) = choose|r: int, c: int|
            0 <= r && 0 <= c < 8 && draw_before(r, c, row, col) && sprite_bit(ram[i + r], c)
                && draw_target(x0, y0, r, c) == p;
        lemma_target_injective(x0, y0, r, c, row, col);
        assert(false);
    }
}

/// Before any cell is drawn nothing has been hit and no collision seen.
pub proof fn lemma_hit_start(ram: Seq<u8>, i: int, x0: int, y0: int, screen0: Seq<bool>)
    ensures
        forall|p: int| !draw_hit_upto(ram, i, x0, y0, 0, 0, p),
        !draw_collision_upto(ram, i, x0, y0, screen0, 0, 0),
{
    assert forall|p: int| !draw_hit_upto(ram, i, x0, y0, 0, 0, p) by {
        if draw_hit_upto(ram, i, x0, y0, 0, 0, p) {
            let (r, c) = choose|r: int, c: int|
                0 <= r && 0 <= c < 8 && draw_before(r, c, 0, 0) && sprite_bit(ram[i + r], c)
                    && draw_target(x0, y0, r, c) == p;
            assert(false);
        }
    }
    if draw_collision_upto(ram, i, x0, y0, screen0, 0, 0) {
        let (r, c) = choose|r: int, c: int|
            0 <= r && 0 <= c < 8 && draw_before(r, c, 0, 0) && sprite_bit(ram[i + r], c)
                && screen0[draw_target(x0, y0, r, c)];
        assert(false);
    }
}

/// Advancing past a cell whose sprite bit is clear changes neither the
/// hit set nor the collision condition.
pub proof fn lemma_hit_step_clear(
    ram: Seq<u8>,
    i: int,
    x0: int,
    y0: int,
    screen0: Seq<bool>,
    row: int,
    col: int,
)
    requires
        0 <= col < 8,
        !sprite_bit(ram[i + row], col),
    ensures
        forall|p: int|
            draw_hit_upto(ram, i, x0, y0, row, col + 1, p) == draw_hit_upto(
                ram,
                i,
                x0,
                y0,
                row,
                col,
                p,
            ),
        draw_collision_upto(ram, i, x0, y0, screen0, row, col + 1) == draw_collision_upto(
            ram,
            i,
            x0,
            y0,
            screen0,
            row,
            col,
        ),
{
    assert forall|p: int|
        draw_hit_upto(ram, i, x0, y0, row, col + 1, p) == draw_hit_upto(
            ram,
            i,
            x0,
            y0,
            row,
            col,
            p,
        ) by {
        if draw_hit_upto(ram, i, x0, y0, row, col + 1, p) {
            let (r, c) = choose|r: int, c: int|
                0 <= r && 0 <= c < 8 && draw_before(r, c, row, col + 1) && sprite_bit(
                    ram[i + r],
                    c,
                ) && draw_target(x0, y0, r, c) == p;
            assert(draw_before(r, c, row, col));
            assert(draw_hit_upto(ram, i, x0, y0, row, col, p));
        }
        if draw_hit_upto(ram, i, x0, y0, row, col, p) {
            let (r, c) = choose|r: int, c: int|
                0 <= r && 0 <= c < 8 && draw_before(r, c, row, col) && sprite_bit(ram[i + r], c)
                    && draw_target(x0, y0, r, c) == p;
            assert(draw_before(r, c, row, col + 1));
            assert(draw_hit_upto(ram, i, x0, y0, row, col + 1, p));
        }
    }
    if draw_collision_upto(ram, i, x0, y0, screen0, row, col + 1) {
        let (r, c) = choose|r: int, c: int|
            0 <= r && 0 <= c < 8 && draw_before(r, c, row, col + 1) && sprite_bit(ram[i + r], c)
                && screen0[draw_target(x0, y0, r, c)];
        assert(draw_before(r, c, row, col));
        assert(draw_collision_upto(ram, i, x0, y0, screen0, row, col));
    }
    if draw_collision_upto(ram, i, x0, y0, screen0, row, col) {
        let (r, c) = choose|r: int, c: int|
            0 <= r && 0 <= c < 8 && draw_before(r, c, row, col) && sprite_bit(ram[i + r], c)
                && screen0[draw_target(x0, y0, r, c)];
        assert(draw_before(r, c, row, col + 1));
        assert(draw_collision_upto(ram, i, x0, y0, screen0, row, col + 1));
    }
}

/// Advancing past a cell whose sprite bit is set adds exactly that
/// cell's pixel to the hit set, and adds a collision exactly when that
/// pixel is on in the pre-draw framebuffer.
pub proof fn lemma_hit_step_set(
    ram: Seq<u8>,
    i: int,
    x0: int,
    y0: int,
    screen0: Seq<bool>,
    row: int,
    col: int,
)
    requires
        0 <= col < 8,
        sprite_bit(ram[i + row], col),
        0 <= row,
    ensures
        forall|p: int|
            draw_hit_upto(ram, i, x0, y0, row, col + 1, p) == (draw_hit_upto(
                ram,
                i,
                x0,
                y0,
                row,
                col,
                p,
            ) || p == draw_target(x0, y0, row, col)),
        draw_collision_upto(ram, i, x0, y0, screen0, row, col + 1) == (draw_collision_upto(
            ram,
            i,
            x0,
            y0,
            screen0,
            row,
            col,
        ) || screen0[draw_target(x0, y0, row, col)]),
{
    assert forall|p: int|
        draw_hit_upto(ram, i, x0, y0, row, col + 1, p) == (draw_hit_upto(
            ram,
            i,
            x0,
            y0,
            row,
            col,
            p,
        ) || p == draw_target(x0, y0, row, col)) by {
        if draw_hit_upto(ram, i, x0, y0, row, col + 1, p) {
            let (r, c) = choose|r: int, c: int|
                0 <= r && 0 <= c < 8 && draw_before(r, c, row, col + 1) && sprite_bit(
                    ram[i + r],
                    c,
                ) && draw_target(x0, y0, r, c) == p;
            if r == row && c == col {
                assert(p == draw_target(x0, y0, row, col));
            } else {
                assert(draw_before(r, c, row, col));
                assert(draw_hit_upto(ram, i, x0, y0, row, col, p));
            }
        }
        if draw_hit_upto(ram, i, x0, y0, row, col, p) {
            let (r, c) = choose|r: int, c: int|
                0 <= r && 0 <= c < 8 && draw_before(r, c, row, col) && sprite_bit(ram[i + r], c)
                    && draw_target(x0, y0, r, c) == p;
            assert(draw_before(r, c, row, col + 1));
            assert(draw_hit_upto(ram, i, x0, y0, row, col + 1, p));
        }
        if p == draw_target(x0, y0, row, col) {
            assert(draw_before(row, col, row, col + 1));
            assert(draw_hit_upto(ram, i, x0, y0, row, col + 1, p));
        }
    }
    if draw_collision_upto(ram, i, x0, y0, screen0, row, col + 1) {
        let (r, c) = choose|r: int, c: int|
            0 <= r && 0 <= c < 8 && draw_before(r, c, row, col + 1) && sprite_bit(ram[i + r], c)
                && screen0[draw_target(x0, y0, r, c)];
        if r == row && c == col {
            assert(screen0[draw_target(x0, y0, row, col)]);
        } else {
            assert(draw_before(r, c, row, col));
            assert(draw_collision_upto(ram, i, x0, y0, screen0, row, col));
        }
    }
    if draw_collision_upto(ram, i, x0, y0, screen0, row, col) {
        let (r, c) = choose|r: int, c: int|
            0 <= r && 0 <= c < 8 && draw_before(r, c, row, col) && sprite_bit(ram[i + r], c)
                && screen0[draw_target(x0, y0, r, c)];
        assert(draw_before(r, c, row, col + 1));
        assert(draw_collision_upto(ram, i, x0, y0, screen0, row, col + 1));
    }
    if screen0[draw_target(x0, y0, row, col)] {
        assert(draw_before(row, col, row, col + 1));
        assert(draw_collision_upto(ram, i, x0, y0, screen0, row, col + 1));
    }
}

/// Having drawn all 8 columns of a row is the same as standing at the
/// start of the next row.
pub proof fn lemma_hit_row_roll(
    ram: Seq<u8>,
    i: int,
    x0: int,
    y0: int,
    screen0: Seq<bool>,
    row: int,
)
    ensures
        forall|p: int|
            draw_hit_upto(ram, i, x0, y0, row + 1, 0, p) == draw_hit_upto(
                ram,
                i,
                x0,
                y0,
                row,
                8,
                p,
            ),
        draw_collision_upto(ram, i, x0, y0, screen0, row + 1, 0) == draw_collision_upto(
            ram,
            i,
            x0,
            y0,
            screen0,
            row,
            8,
        ),
{
    assert forall|p: int|
        draw_hit_upto(ram, i, x0, y0, row + 1, 0, p) == draw_hit_upto(
            ram,
            i,
            x0,
            y0,
            row,
            8,
            p,
        ) by {
        if draw_hit_upto(ram, i, x0, y0, row + 1, 0, p) {
            let (r, c) = choose|r: int, c: int|
                0 <= r && 0 <= c < 8 && draw_before(r, c, row + 1, 0) && sprite_bit(ram[i + r], c)
                    && draw_target(x0, y0, r, c) == p;
            assert(draw_before(r, c, row, 8));
            assert(draw_hit_upto(ram, i, x0, y0, row, 8, p));
        }
        if draw_hit_upto(ram, i, x0, y0, row, 8, p) {
            let (r, c) = choose|r: int, c: int|
                0 <= r && 0 <= c < 8 && draw_before(r, c, row, 8) && sprite_bit(ram[i + r], c)
                    && draw_target(x0, y0, r, c) == p;
            assert(draw_before(r, c, row + 1, 0));
            assert(draw_hit_upto(ram, i, x0, y0, row + 1, 0, p));
        }
    }
    if draw_collision_upto(ram, i, x0, y0, screen0, row + 1, 0) {
        let (r, c) = choose|r: int, c: int|
            0 <= r && 0 <= c < 8 && draw_before(r, c, row + 1, 0) && sprite_bit(ram[i + r], c)
                && screen0[draw_target(x0, y0, r, c)];
        assert(draw_before(r, c, row, 8));
        assert(draw_collision_upto(ram, i, x0, y0, screen0, row, 8));
    }
    if draw_collision_upto(ram, i, x0, y0, screen0, row, 8) {
        let (r, c) = choose|r: int, c: int|
            0 <= r && 0 <= c < 8 && draw_before(r, c, row, 8) && sprite_bit(ram[i + r], c)
                && screen0[draw_target(x0, y0, r, c)];
        assert(draw_before(r, c, row + 1, 0));
        assert(draw_collision_upto(ram, i, x0, y0, screen0, row + 1, 0));
    }
}

} // verus!
