//! The transition semantics: what one instruction does to the abstract
//! state, what one timer tick does, and on which states an instruction
//! cycle fails instead of stepping.

use vstd::prelude::*;

use crate::isa::Instr;
use crate::isa::spec_decode;
use crate::state::State;

verus! {

/// Why an instruction cycle was aborted. No effect of the cycle is
/// applied when one of these is reported.
#[derive(Clone, Copy, PartialEq, Eq, Structural, Debug)]
pub enum Chip8Error {
    /// The fetched word matches no entry of the dispatch table; carries
    /// the offending word.
    UnknownOpcode(u16),
    /// A subroutine call with all 16 stack slots in use.
    StackOverflow,
    /// A subroutine return with no pending call.
    StackUnderflow,
    /// A fetch, sprite read, or register/memory transfer past the end of
    /// the 4096 memory bytes.
    MemoryOutOfBounds,
    /// A key-skip instruction whose register holds a value of 16 or more.
    KeyOutOfRange,
}

/// The instruction word at the program counter: two consecutive memory
/// bytes combined big-endian.
pub open spec fn spec_fetch(s: State) -> u16 {
    ((s.ram[s.pc as int] as u16) << 8) | (s.ram[s.pc as int + 1] as u16)
}

/// Whether bit `col` (most significant first) of sprite row byte `b` is set.
pub open spec fn sprite_bit(b: u8, col: int) -> bool {
    b & (0x80u8 >> (col as u8)) != 0
}

/// Screen column of sprite column `col` drawn at origin column `x0`,
/// wrapping at the right edge.
pub open spec fn wrap_x(x0: int, col: int) -> int {
    (x0 + col) % 64
}

/// Screen row of sprite row `row` drawn at origin row `y0`, wrapping at
/// the bottom edge.
pub open spec fn wrap_y(y0: int, row: int) -> int {
    (y0 + row) % 32
}

/// Framebuffer index of the pixel that sprite cell (`row`, `col`) lands
/// on when drawn at origin (`x0`, `y0`).
pub open spec fn draw_target(x0: int, y0: int, row: int, col: int) -> int {
    wrap_x(x0, col) + 64 * wrap_y(y0, row)
}

/// Whether sprite cell (`row`, `col`) is drawn strictly before the cell
/// (`rows_done`, `cols_done`) in row-major drawing order.
pub open spec fn draw_before(row: int, col: int, rows_done: int, cols_done: int) -> bool {
    row < rows_done || (row == rows_done && col < cols_done)
}

/// Whether some sprite cell drawn before (`rows_done`, `cols_done`) has
/// its bit set and lands on pixel `p`. With `cols_done == 0` this covers
/// the first `rows_done` whole rows.
pub open spec fn draw_hit_upto(
    ram: Seq<u8>,
    i: int,
    x0: int,
    y0: int,
    rows_done: int,
    cols_done: int,
    p: int,
) -> bool {
    exists|row: int, col: int|
        0 <= row && 0 <= col < 8 && draw_before(row, col, rows_done, cols_done) && sprite_bit(
            ram[i + row],
            col,
        ) && draw_target(x0, y0, row, col) == p
}

/// Whether some sprite cell drawn before (`rows_done`, `cols_done`) has
/// its bit set and lands on a pixel that is on in `screen0`: the
/// collision condition over the pre-draw framebuffer.
pub open spec fn draw_collision_upto(
    ram: Seq<u8>,
    i: int,
    x0: int,
    y0: int,
    screen0: Seq<bool>,
    rows_done: int,
    cols_done: int,
) -> bool {
    exists|row: int, col: int|
        0 <= row && 0 <= col < 8 && draw_before(row, col, rows_done, cols_done) && sprite_bit(
            ram[i + row],
            col,
        ) && screen0[draw_target(x0, y0, row, col)]
}

/// The framebuffer after drawing the `n`-row sprite at memory address `i`
/// with origin (`x0`, `y0`): each targeted pixel is XOR-flipped, every
/// other pixel keeps its value.
pub open spec fn draw_screen(
    ram: Seq<u8>,
    i: int,
    x0: int,
    y0: int,
    n: int,
    screen: Seq<bool>,
) -> Seq<bool> {
    Seq::new(screen.len(), |p: int| screen[p] != draw_hit_upto(ram, i, x0, y0, n, 0, p))
}

/// Memory after loading `data` at the fixed program offset 0x200:
/// the loaded span holds `data`, everything else keeps its byte.
pub open spec fn load_ram(ram: Seq<u8>, data: Seq<u8>) -> Seq<u8> {
    Seq::new(
        ram.len(),
        |j: int|
            if 0x200 <= j < 0x200 + data.len() {
                data[j - 0x200]
            } else {
                ram[j]
            },
    )
}

/// The lowest pressed key index, or 16 when none of `keys[from..16]` is
/// pressed.
pub open spec fn first_key_from(keys: Seq<bool>, from: int) -> int
    decreases 16 - from,
{
    if from < 0 || from >= 16 {
        16
    } else if keys[from] {
        from
    } else {
        first_key_from(keys, from + 1)
    }
}

/// The lowest pressed key index, or 16 when no key is pressed.
pub open spec fn first_key(keys: Seq<bool>) -> int {
    first_key_from(keys, 0)
}

/// While the keys below `k` are all released, the scan for the first
/// pressed key may as well start at `k`.
pub proof fn lemma_first_key_prefix(keys: Seq<bool>, k: int)
    requires
        0 <= k <= 16,
        forall|j: int| 0 <= j < k ==> !keys[j],
    ensures
        first_key(keys) == first_key_from(keys, k),
    decreases k,
{
    if k > 0 {
        lemma_first_key_prefix(keys, k - 1);
    }
}

/// The effect of one decoded instruction on state `s`, given that the
/// fetch of its word has already been accounted for: `pc2` below is the
/// address of the following instruction. `rnd` is the byte the random
/// source yields, consumed only by `Random`. An `Err` applies no effect.
pub open spec fn exec_instr(s: State, instr: Instr, rnd: u8) -> Result<State, Chip8Error> {
    let pc2 = (s.pc + 2) as u16;
    match instr {
        Instr::Nop => Ok(State { pc: pc2, ..s }),
        Instr::Cls => Ok(
            State { pc: pc2, screen: Seq::new(s.screen.len(), |j: int| false), ..s },
        ),
        Instr::Ret => if s.stack.len() == 0 {
            Err(Chip8Error::StackUnderflow)
        } else {
            Ok(State { pc: s.stack.last(), stack: s.stack.drop_last(), ..s })
        },
        Instr::Jump(nnn) => Ok(State { pc: nnn, ..s }),
        Instr::Call(nnn) => if s.stack.len() >= 16 {
            Err(Chip8Error::StackOverflow)
        } else {
            Ok(State { pc: nnn, stack: s.stack.push(pc2), ..s })
        },
        Instr::SkipEqImm(x, nn) => Ok(
            State { pc: if s.v[x as int] == nn { (s.pc + 4) as u16 } else { pc2 }, ..s },
        ),
        Instr::SkipNeImm(x, nn) => Ok(
            State { pc: if s.v[x as int] != nn { (s.pc + 4) as u16 } else { pc2 }, ..s },
        ),
        Instr::SkipEqReg(x, y) => Ok(
            State {
                pc: if s.v[x as int] == s.v[y as int] { (s.pc + 4) as u16 } else { pc2 },
                ..s
            },
        ),
        Instr::SetImm(x, nn) => Ok(State { pc: pc2, v: s.v.update(x as int, nn), ..s }),
        Instr::AddImm(x, nn) => Ok(
            State {
                pc: pc2,
                v: s.v.update(x as int, ((s.v[x as int] + nn) % 256) as u8),
                ..s
            },
        ),
        Instr::Copy(x, y) => Ok(State { pc: pc2, v: s.v.update(x as int, s.v[y as int]), ..s }),
        Instr::Or(x, y) => Ok(
            State { pc: pc2, v: s.v.update(x as int, s.v[x as int] | s.v[y as int]), ..s },
        ),
        Instr::And(x, y) => Ok(
            State { pc: pc2, v: s.v.update(x as int, s.v[x as int] & s.v[y as int]), ..s },
        ),
        Instr::Xor(x, y) => Ok(
            State { pc: pc2, v: s.v.update(x as int, s.v[x as int] ^ s.v[y as int]), ..s },
        ),
        Instr::Add(x, y) => {
            let sum = s.v[x as int] + s.v[y as int];
            Ok(
                State {
                    pc: pc2,
                    v: s.v.update(x as int, (sum % 256) as u8).update(
                        15,
                        if sum >= 256 { 1u8 } else { 0u8 },
                    ),
                    ..s
                },
            )
        },
        Instr::Sub(x, y) => {
            let diff = s.v[x as int] - s.v[y as int];
            Ok(
                State {
                    pc: pc2,
                    v: s.v.update(x as int, (if diff < 0 { diff + 256 } else { diff }) as u8).update(
                        15,
                        if diff < 0 { 0u8 } else { 1u8 },
                    ),
                    ..s
                },
            )
        },
        Instr::ShiftRight(x) => Ok(
            State {
                pc: pc2,
                v: s.v.update(x as int, (s.v[x as int] / 2) as u8).update(
                    15,
                    (s.v[x as int] % 2) as u8,
                ),
                ..s
            },
        ),
        Instr::SubFrom(x, y) => {
            let diff = s.v[y as int] - s.v[x as int];
            Ok(
                State {
                    pc: pc2,
                    v: s.v.update(x as int, (if diff < 0 { diff + 256 } else { diff }) as u8).update(
                        15,
                        if diff < 0 { 0u8 } else { 1u8 },
                    ),
                    ..s
                },
            )
        },
        Instr::ShiftLeft(x) => Ok(
            State {
                pc: pc2,
                v: s.v.update(x as int, ((s.v[x as int] * 2) % 256) as u8).update(
                    15,
                    (s.v[x as int] / 128) as u8,
                ),
                ..s
            },
        ),
        Instr::SkipNeReg(x, y) => Ok(
            State {
                pc: if s.v[x as int] != s.v[y as int] { (s.pc + 4) as u16 } else { pc2 },
                ..s
            },
        ),
        Instr::SetIndex(nnn) => Ok(State { pc: pc2, i: nnn, ..s }),
        Instr::JumpPlusV0(nnn) => Ok(State { pc: (s.v[0] + nnn) as u16, ..s }),
        Instr::Random(x, nn) => Ok(State { pc: pc2, v: s.v.update(x as int, rnd & nn), ..s }),
        Instr::Draw(x, y, n) => {
            let x0 = s.v[x as int] as int;
            let y0 = s.v[y as int] as int;
            if n > 0 && s.i + n > 4096 {
                Err(Chip8Error::MemoryOutOfBounds)
            } else {
                Ok(
                    State {
                        pc: pc2,
                        screen: draw_screen(s.ram, s.i as int, x0, y0, n as int, s.screen),
                        v: s.v.update(
                            15,
                            if draw_collision_upto(
                                s.ram,
                                s.i as int,
                                x0,
                                y0,
                                s.screen,
                                n as int,
                                0,
                            ) {
                                1u8
                            } else {
                                0u8
                            },
                        ),
                        ..s
                    },
                )
            }
        },
        Instr::SkipKey(x) => if s.v[x as int] >= 16 {
            Err(Chip8Error::KeyOutOfRange)
        } else {
            Ok(
                State {
                    pc: if s.keys[s.v[x as int] as int] { (s.pc + 4) as u16 } else { pc2 },
                    ..s
                },
            )
        },
        Instr::SkipNoKey(x) => if s.v[x as int] >= 16 {
            Err(Chip8Error::KeyOutOfRange)
        } else {
            Ok(
                State {
                    pc: if !s.keys[s.v[x as int] as int] { (s.pc + 4) as u16 } else { pc2 },
                    ..s
                },
            )
        },
        Instr::ReadDelay(x) => Ok(State { pc: pc2, v: s.v.update(x as int, s.dt), ..s }),
        Instr::WaitKey(x) => {
            let k = first_key(s.keys);
            if k < 16 {
                Ok(State { pc: pc2, v: s.v.update(x as int, k as u8), ..s })
            } else {
                // no key pressed: the program counter is left where this
                // instruction was fetched, so the next cycle retries it
                Ok(s)
            }
        },
        Instr::SetDelay(x) => Ok(State { pc: pc2, dt: s.v[x as int], ..s }),
        Instr::SetSound(x) => Ok(State { pc: pc2, st: s.v[x as int], ..s }),
        Instr::AddIndex(x) => Ok(
            State { pc: pc2, i: ((s.i + s.v[x as int]) % 65536) as u16, ..s },
        ),
        Instr::FontIndex(x) => Ok(State { pc: pc2, i: (s.v[x as int] * 5) as u16, ..s }),
        Instr::StoreBcd(x) => {
            let vx = s.v[x as int];
            if s.i + 2 >= 4096 {
                Err(Chip8Error::MemoryOutOfBounds)
            } else {
                Ok(
                    State {
                        pc: pc2,
                        ram: s.ram.update(s.i as int, (vx / 100) as u8).update(
                            s.i as int + 1,
                            ((vx / 10) % 10) as u8,
                        ).update(s.i as int + 2, (vx % 10) as u8),
                        ..s
                    },
                )
            }
        },
        Instr::StoreRegs(x) => if s.i + x >= 4096 {
            Err(Chip8Error::MemoryOutOfBounds)
        } else {
            Ok(
                State {
                    pc: pc2,
                    ram: Seq::new(
                        s.ram.len(),
                        |j: int|
                            if s.i <= j <= s.i + x {
                                s.v[j - s.i]
                            } else {
                                s.ram[j]
                            },
                    ),
                    ..s
                },
            )
        },
        Instr::LoadRegs(x) => if s.i + x >= 4096 {
            Err(Chip8Error::MemoryOutOfBounds)
        } else {
            Ok(
                State {
                    pc: pc2,
                    v: Seq::new(
                        s.v.len(),
                        |j: int|
                            if 0 <= j <= x {
                                s.ram[s.i + j]
                            } else {
                                s.v[j]
                            },
                    ),
                    ..s
                },
            )
        },
    }
}

/// One full instruction cycle from state `s`: fetch the word at the
/// program counter, decode it, and apply it. Fails without effect when
/// the fetch would run past memory or the word is not in the dialect.
pub open spec fn spec_step(s: State, rnd: u8) -> Result<State, Chip8Error> {
    if s.pc > 4094 {
        Err(Chip8Error::MemoryOutOfBounds)
    } else {
        let op = spec_fetch(s);
        match spec_decode(op) {
            Some(instr) => exec_instr(s, instr, rnd),
            None => Err(Chip8Error::UnknownOpcode(op)),
        }
    }
}

/// One timer tick: each counter loses 1 when above zero and stays at
/// zero otherwise.
pub open spec fn spec_tick_timers(s: State) -> State {
    State {
        dt: if s.dt > 0 { (s.dt - 1) as u8 } else { 0 },
        st: if s.st > 0 { (s.st - 1) as u8 } else { 0 },
        ..s
    }
}

} // verus!
