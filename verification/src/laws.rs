//! The general laws of the instruction semantics, stated and proved over
//! the transition function: arithmetic wraparound, shift flag capture,
//! skip distances, key-wait retry, the timer floor, and font addressing.

use vstd::prelude::*;

use crate::draw::lemma_target_bounds;
use crate::isa::Instr;
use crate::isa::spec_decode;
use crate::state::State;
use crate::state::glyph_byte;
use crate::step::Chip8Error;
use crate::step::draw_collision_upto;
use crate::step::draw_hit_upto;
use crate::step::draw_target;
use crate::step::exec_instr;
use crate::step::lemma_first_key_prefix;
use crate::step::spec_fetch;
use crate::step::spec_step;
use crate::step::spec_tick_timers;
use crate::step::sprite_bit;

verus! {

/// Adding an immediate wraps modulo 256: from any state, `7XNN` leaves
/// `(Vx + NN) mod 256` in Vx.
pub proof fn lemma_add_imm_wraps(s: State, x: u8, nn: u8, rnd: u8)
    requires
        s.wf(),
        x < 16,
    ensures
        ({
            let r = exec_instr(s, Instr::AddImm(x, nn), rnd);
            &&& r is Ok
            &&& r->Ok_0.v[x as int] == (s.v[x as int] + nn) % 256
        }),
{
}

/// Register addition wraps modulo 256 and VF reports the carry: from
/// any state, `8XY4` leaves `(Vx + Vy) mod 256` in Vx and sets VF to 1
/// exactly when the true sum reaches 256. Vx is only preserved as the
/// sum when x is not the flag register itself, which the flag write
/// overwrites.
pub proof fn lemma_add_reg_wraps(s: State, x: u8, y: u8, rnd: u8)
    requires
        s.wf(),
        x < 16,
        y < 16,
        x != 15,
    ensures
        ({
            let r = exec_instr(s, Instr::Add(x, y), rnd);
            &&& r is Ok
            &&& r->Ok_0.v[x as int] == (s.v[x as int] + s.v[y as int]) % 256
            &&& r->Ok_0.v[15] == (if s.v[x as int] + s.v[y as int] >= 256 {
                1u8
            } else {
                0u8
            })
        }),
{
}

/// Register subtraction wraps modulo 256 and VF reports the absence of
/// a borrow: from any state, `8XY5` leaves `(Vx - Vy) mod 256` in Vx
/// and sets VF to 0 exactly when Vx < Vy.
pub proof fn lemma_sub_reg_wraps(s: State, x: u8, y: u8, rnd: u8)
    requires
        s.wf(),
        x < 16,
        y < 16,
        x != 15,
    ensures
        ({
            let r = exec_instr(s, Instr::Sub(x, y), rnd);
            &&& r is Ok
            &&& r->Ok_0.v[x as int] == (s.v[x as int] - s.v[y as int] + 256) % 256
            &&& r->Ok_0.v[15] == (if s.v[x as int] < s.v[y as int] {
                0u8
            } else {
                1u8
            })
        }),
{
    let d = s.v[x as int] - s.v[y as int];
    if d < 0 {
        assert((d + 256) % 256 == d + 256);
    } else {
        assert((d + 256) % 256 == d);
    }
}

/// `8XY6` captures the pre-shift least-significant bit of Vx in VF, for
/// every register value, and halves Vx.
pub proof fn lemma_shift_right_flag(s: State, x: u8, rnd: u8)
    requires
        s.wf(),
        x < 16,
    ensures
        ({
            let r = exec_instr(s, Instr::ShiftRight(x), rnd);
            &&& r is Ok
            &&& r->Ok_0.v[15] == s.v[x as int] % 2
            &&& x != 15 ==> r->Ok_0.v[x as int] == s.v[x as int] / 2
        }),
{
}

/// `8XYE` captures the pre-shift most-significant bit of Vx in VF, for
/// every register value, and doubles Vx modulo 256.
pub proof fn lemma_shift_left_flag(s: State, x: u8, rnd: u8)
    requires
        s.wf(),
        x < 16,
    ensures
        ({
            let r = exec_instr(s, Instr::ShiftLeft(x), rnd);
            &&& r is Ok
            &&& r->Ok_0.v[15] == s.v[x as int] / 128
            &&& x != 15 ==> r->Ok_0.v[x as int] == (s.v[x as int] * 2) % 256
        }),
{
}

/// `3XNN` advances the program counter by 4 in all when Vx equals the
/// immediate (the fetch plus the skipped instruction), by 2 when not.
pub proof fn lemma_skip_eq_imm(s: State, x: u8, nn: u8, rnd: u8)
    requires
        s.wf(),
        x < 16,
        s.pc <= 4094,
    ensures
        ({
            let r = exec_instr(s, Instr::SkipEqImm(x, nn), rnd);
            &&& r is Ok
            &&& r->Ok_0.pc == s.pc + (if s.v[x as int] == nn {
                4int
            } else {
                2int
            })
        }),
{
}

/// `4XNN` advances the program counter by 4 when Vx differs from the
/// immediate, by 2 when it is equal.
pub proof fn lemma_skip_ne_imm(s: State, x: u8, nn: u8, rnd: u8)
    requires
        s.wf(),
        x < 16,
        s.pc <= 4094,
    ensures
        ({
            let r = exec_instr(s, Instr::SkipNeImm(x, nn), rnd);
            &&& r is Ok
            &&& r->Ok_0.pc == s.pc + (if s.v[x as int] != nn {
                4int
            } else {
                2int
            })
        }),
{
}

/// `5XY0` advances the program counter by 4 when Vx equals Vy, by 2
/// when not.
pub proof fn lemma_skip_eq_reg(s: State, x: u8, y: u8, rnd: u8)
    requires
        s.wf(),
        x < 16,
        y < 16,
        s.pc <= 4094,
    ensures
        ({
            let r = exec_instr(s, Instr::SkipEqReg(x, y), rnd);
            &&& r is Ok
            &&& r->Ok_0.pc == s.pc + (if s.v[x as int] == s.v[y as int] {
                4int
            } else {
                2int
            })
        }),
{
}

/// `9XY0` advances the program counter by 4 when Vx differs from Vy,
/// by 2 when they are equal.
pub proof fn lemma_skip_ne_reg(s: State, x: u8, y: u8, rnd: u8)
    requires
        s.wf(),
        x < 16,
        y < 16,
        s.pc <= 4094,
    ensures
        ({
            let r = exec_instr(s, Instr::SkipNeReg(x, y), rnd);
            &&& r is Ok
            &&& r->Ok_0.pc == s.pc + (if s.v[x as int] != s.v[y as int] {
                4int
            } else {
                2int
            })
        }),
{
}

/// With no key pressed, `FX0A` leaves the whole state unchanged — in
/// particular the program counter — so the instruction retries on every
/// following cycle until a key is pressed.
pub proof fn lemma_key_wait_retry(s: State, x: u8, rnd: u8)
    requires
        s.wf(),
        x < 16,
        forall|j: int| 0 <= j < 16 ==> !s.keys[j],
    ensures
        exec_instr(s, Instr::WaitKey(x), rnd) == Ok::<State, Chip8Error>(s),
{
    lemma_first_key_prefix(s.keys, 16);
}

/// Once key `k` is the lowest pressed key, `FX0A` stores `k` in Vx and
/// advances the program counter by the usual 2 bytes.
pub proof fn lemma_key_wait_press(s: State, x: u8, k: u8, rnd: u8)
    requires
        s.wf(),
        x < 16,
        k < 16,
        s.keys[k as int],
        forall|j: int| 0 <= j < k ==> !s.keys[j],
        s.pc <= 4094,
    ensures
        ({
            let r = exec_instr(s, Instr::WaitKey(x), rnd);
            &&& r is Ok
            &&& r->Ok_0.v[x as int] == k
            &&& r->Ok_0.pc == s.pc + 2
        }),
{
    lemma_first_key_prefix(s.keys, k as int);
}

/// Every instruction but `CXNN` is deterministic: the byte offered by
/// the random source cannot change what a cycle does.
pub proof fn lemma_step_deterministic(s: State, rnd1: u8, rnd2: u8)
    requires
        !(spec_decode(spec_fetch(s)) matches Some(Instr::Random(_, _))),
    ensures
        spec_step(s, rnd1) == spec_step(s, rnd2),
{
}

/// A timer tick never takes a counter below zero: a positive counter
/// loses exactly 1 and a counter at zero stays at zero.
pub proof fn lemma_timer_floor(s: State)
    ensures
        s.dt > 0 ==> spec_tick_timers(s).dt == s.dt - 1,
        s.dt == 0 ==> spec_tick_timers(s).dt == 0,
        s.st > 0 ==> spec_tick_timers(s).st == s.st - 1,
        s.st == 0 ==> spec_tick_timers(s).st == 0,
        spec_tick_timers(spec_tick_timers(s)).dt <= spec_tick_timers(s).dt,
{
}

/// `FX29` points I at the glyph for the digit in Vx: the glyphs are 5
/// bytes wide, so I becomes 5 * Vx.
pub proof fn lemma_font_index(s: State, x: u8, rnd: u8)
    requires
        s.wf(),
        x < 16,
        s.pc <= 4094,
    ensures
        ({
            let r = exec_instr(s, Instr::FontIndex(x), rnd);
            &&& r is Ok
            &&& r->Ok_0.i == 5 * s.v[x as int]
        }),
{
}

/// Drawing the same sprite twice at the same origin restores the
/// framebuffer, because XOR-flipping each targeted pixel twice undoes
/// it; and when the first draw found every targeted pixel off and the
/// sprite has at least one set bit, the second draw reports a
/// collision. The origin registers must not be the flag register,
/// which the first draw overwrites.
pub proof fn lemma_double_draw(s: State, x: u8, y: u8, n: u8, rnd1: u8, rnd2: u8)
    requires
        s.wf(),
        x < 16,
        y < 16,
        n < 16,
        x != 15,
        y != 15,
        s.pc <= 4090,
        exec_instr(s, Instr::Draw(x, y, n), rnd1) is Ok,
    ensures
        ({
            let s1 = exec_instr(s, Instr::Draw(x, y, n), rnd1)->Ok_0;
            let r2 = exec_instr(s1, Instr::Draw(x, y, n), rnd2);
            &&& r2 is Ok
            &&& r2->Ok_0.screen == s.screen
            &&& (s1.v[15] == 0 && (exists|row: int, col: int|
                0 <= row < n && 0 <= col < 8 && #[trigger] sprite_bit(s.ram[s.i + row], col)))
                ==> r2->Ok_0.v[15] == 1
        }),
{
    let s1 = exec_instr(s, Instr::Draw(x, y, n), rnd1)->Ok_0;
    let r2 = exec_instr(s1, Instr::Draw(x, y, n), rnd2);
    let x0 = s.v[x as int] as int;
    let y0 = s.v[y as int] as int;
    let i = s.i as int;
    assert(s1.v[x as int] == s.v[x as int] && s1.v[y as int] == s.v[y as int]);
    assert(r2 is Ok);
    let s2 = r2->Ok_0;
    assert forall|p: int| 0 <= p < s.screen.len() implies s2.screen[p] == s.screen[p] by {
        assert(s1.screen[p] == (s.screen[p] != draw_hit_upto(s.ram, i, x0, y0, n as int, 0, p)));
    }
    assert(s2.screen =~= s.screen);
    if s1.v[15] == 0 && (exists|row: int, col: int|
        0 <= row < n && 0 <= col < 8 && #[trigger] sprite_bit(s.ram[s.i + row], col)) {
        // the first draw saw no lit pixel under the sprite
        assert(!draw_collision_upto(s.ram, i, x0, y0, s.screen, n as int, 0));
        let (row, col) = choose|row: int, col: int|
            0 <= row < n && 0 <= col < 8 && #[trigger] sprite_bit(s.ram[s.i + row], col);
        let p = draw_target(x0, y0, row, col);
        lemma_target_bounds(x0, y0, row, col);
        // that pixel was off before the first draw, else it would have
        // been a collision then
        assert(!s.screen[p]);
        // the first draw turned it on
        assert(draw_hit_upto(s.ram, i, x0, y0, n as int, 0, p));
        assert(s1.screen[p]);
        // so the second draw collides on it
        assert(draw_collision_upto(s.ram, i, x0, y0, s1.screen, n as int, 0));
    }
}

/// In the initial state, the 5 bytes at address 5*d hold exactly the
/// built-in glyph for hexadecimal digit d.
pub proof fn lemma_initial_font_glyphs(d: int, k: int)
    requires
        0 <= d < 16,
        0 <= k < 5,
    ensures
        State::initial().ram[5 * d + k] == glyph_byte(d, k),
{
}

} // verus!
