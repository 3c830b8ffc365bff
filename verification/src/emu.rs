//! The interpreter itself: concrete state, host operations, and the
//! fetch-decode-execute cycle, each verified against the transition
//! semantics in `step`.

use vstd::prelude::*;

use crate::draw::lemma_hit_row_roll;
use crate::draw::lemma_hit_start;
use crate::draw::lemma_hit_step_clear;
use crate::draw::lemma_hit_step_set;
use crate::draw::lemma_no_prior_hit;
use crate::draw::lemma_target_bounds;
use crate::isa::Instr;
use crate::isa::decode;
use crate::isa::instr_wf;
use crate::state::FONTSET_SIZE;
use crate::state::NUM_KEYS;
use crate::state::NUM_REGISTERS;
use crate::state::RAM_SIZE;
use crate::state::SCREEN_HEIGHT;
use crate::state::SCREEN_WIDTH;
use crate::state::STACK_SIZE;
use crate::state::START_ADDR;
use crate::state::State;
use crate::state::font;
use crate::step::Chip8Error;
use crate::step::draw_collision_upto;
use crate::step::draw_hit_upto;
use crate::step::draw_screen;
use crate::step::draw_target;
use crate::step::exec_instr;
use crate::step::lemma_first_key_prefix;
use crate::step::load_ram;
use crate::step::spec_fetch;
use crate::step::spec_step;
use crate::step::spec_tick_timers;
use crate::step::sprite_bit;
use crate::step::wrap_x;
use crate::step::wrap_y;

verus! {

/// The emulated machine. The host owns one of these and drives it
/// through the public operations; its view is the abstract [`State`].
pub struct Emu {
    pc: u16,
    ram: Vec<u8>,
    screen: Vec<bool>,
    v_reg: Vec<u8>,
    i_reg: u16,
    sp: u16,
    stack: Vec<u16>,
    keys: Vec<bool>,
    dt: u8,
    st: u8,
}

impl View for Emu {
    type V = State;

    /// The abstraction: each buffer as a sequence, and of the stack
    /// array only the `sp` live entries.
    closed spec fn view(&self) -> State {
        State {
            pc: self.pc,
            ram: self.ram@,
            screen: self.screen@,
            v: self.v_reg@,
            i: self.i_reg,
            stack: self.stack@.subrange(0, self.sp as int),
            keys: self.keys@,
            dt: self.dt,
            st: self.st,
        }
    }
}

/// A vector of `n` copies of `val`.
fn filled_bytes(n: usize, val: u8) -> (v: Vec<u8>)
    ensures
        v@ == Seq::new(n as nat, |j: int| val),
{
    let mut v: Vec<u8> = Vec::new();
    while v.len() < n
        invariant
            v@.len() <= n,
            forall|j: int| 0 <= j < v@.len() ==> v@[j] == val,
        decreases n - v@.len(),
    {
        v.push(val);
    }
    proof {
        assert(v@ =~= Seq::new(n as nat, |j: int| val));
    }
    v
}

/// A vector of `n` copies of `val`.
fn filled_bools(n: usize, val: bool) -> (v: Vec<bool>)
    ensures
        v@ == Seq::new(n as nat, |j: int| val),
{
    let mut v: Vec<bool> = Vec::new();
    while v.len() < n
        invariant
            v@.len() <= n,
            forall|j: int| 0 <= j < v@.len() ==> v@[j] == val,
        decreases n - v@.len(),
    {
        v.push(val);
    }
    proof {
        assert(v@ =~= Seq::new(n as nat, |j: int| val));
    }
    v
}

/// A vector of `n` copies of `val`.
fn filled_words(n: usize, val: u16) -> (v: Vec<u16>)
    ensures
        v@ == Seq::new(n as nat, |j: int| val),
{
    let mut v: Vec<u16> = Vec::new();
    while v.len() < n
        invariant
            v@.len() <= n,
            forall|j: int| 0 <= j < v@.len() ==> v@[j] == val,
        decreases n - v@.len(),
    {
        v.push(val);
    }
    proof {
        assert(v@ =~= Seq::new(n as nat, |j: int| val));
    }
    v
}

/// The built-in font as bytes, matching the spec function [`font`].
fn font_vec() -> (v: Vec<u8>)
    ensures
        v@ == font(),
{
    let mut v: Vec<u8> = Vec::new();
    v.push(0xF0);
    v.push(0x90);
    v.push(0x90);
    v.push(0x90);
    v.push(0xF0);
    v.push(0x20);
    v.push(0x60);
    v.push(0x20);
    v.push(0x20);
    v.push(0x70);
    v.push(0xF0);
    v.push(0x10);
    v.push(0xF0);
    v.push(0x80);
    v.push(0xF0);
    v.push(0xF0);
    v.push(0x10);
    v.push(0xF0);
    v.push(0x10);
    v.push(0xF0);
    v.push(0x90);
    v.push(0x90);
    v.push(0xF0);
    v.push(0x10);
    v.push(0x10);
    v.push(0xF0);
    v.push(0x80);
    v.push(0xF0);
    v.push(0x10);
    v.push(0xF0);
    v.push(0xF0);
    v.push(0x80);
    v.push(0xF0);
    v.push(0x90);
    v.push(0xF0);
    v.push(0xF0);
    v.push(0x10);
    v.push(0x20);
    v.push(0x40);
    v.push(0x40);
    v.push(0xF0);
    v.push(0x90);
    v.push(0xF0);
    v.push(0x90);
    v.push(0xF0);
    v.push(0xF0);
    v.push(0x90);
    v.push(0xF0);
    v.push(0x10);
    v.push(0xF0);
    v.push(0xF0);
    v.push(0x90);
    v.push(0xF0);
    v.push(0x90);
    v.push(0x90);
    v.push(0xE0);
    v.push(0x90);
    v.push(0xE0);
    v.push(0x90);
    v.push(0xE0);
    v.push(0xF0);
    v.push(0x80);
    v.push(0x80);
    v.push(0x80);
    v.push(0xF0);
    v.push(0xE0);
    v.push(0x90);
    v.push(0x90);
    v.push(0x90);
    v.push(0xE0);
    v.push(0xF0);
    v.push(0x80);
    v.push(0xF0);
    v.push(0x80);
    v.push(0xF0);
    v.push(0xF0);
    v.push(0x80);
    v.push(0xF0);
    v.push(0x80);
    v.push(0x80);
    proof {
        assert(v@ =~= font());
    }
    v
}

/// Relies on `rand::random`: one byte from the thread-local uniform
/// generator. Its value depends on the generator's state, so nothing is
/// promised of it; callers state what holds for every byte.
#[verifier::external_body]
fn random_byte() -> u8 {
    rand::random()
}

impl Emu {
    /// The fixed buffer sizes the concrete representation keeps.
    pub closed spec fn wf(&self) -> bool {
        &&& self.ram@.len() == RAM_SIZE
        &&& self.screen@.len() == SCREEN_WIDTH * SCREEN_HEIGHT
        &&& self.v_reg@.len() == NUM_REGISTERS
        &&& self.stack@.len() == STACK_SIZE
        &&& self.sp <= STACK_SIZE
        &&& self.keys@.len() == NUM_KEYS
    }

    /// A freshly initialized machine: font preloaded, program counter at
    /// the load offset, everything else zeroed.
    pub fn new() -> (r: Emu)
        ensures
            r.wf(),
            r@ == State::initial(),
    {
        let mut e = Emu {
            pc: START_ADDR,
            ram: Vec::new(),
            screen: Vec::new(),
            v_reg: Vec::new(),
            i_reg: 0,
            sp: 0,
            stack: Vec::new(),
            keys: Vec::new(),
            dt: 0,
            st: 0,
        };
        e.reset();
        e
    }

    /// Restore the initial state, whatever the machine holds now:
    /// memory, registers, stack, keys, timers and framebuffer are
    /// cleared, the font is rewritten, and the program counter returns
    /// to the load offset.
    pub fn reset(&mut self)
        ensures
            final(self).wf(),
            final(self)@ == State::initial(),
    {
        self.pc = START_ADDR;
        self.ram = filled_bytes(RAM_SIZE, 0);
        self.screen = filled_bools(SCREEN_WIDTH * SCREEN_HEIGHT, false);
        self.v_reg = filled_bytes(NUM_REGISTERS, 0);
        self.i_reg = 0;
        self.sp = 0;
        self.stack = filled_words(STACK_SIZE, 0);
        self.keys = filled_bools(NUM_KEYS, false);
        self.dt = 0;
        self.st = 0;
        let f = font_vec();
        let mut k: usize = 0;
        while k < FONTSET_SIZE
            invariant
                f@ == font(),
                k <= FONTSET_SIZE,
                self.pc == START_ADDR,
                self.i_reg == 0,
                self.sp == 0,
                self.dt == 0,
                self.st == 0,
                self.ram@.len() == RAM_SIZE,
                forall|j: int| 0 <= j < k ==> self.ram@[j] == font()[j],
                forall|j: int| k <= j < RAM_SIZE ==> self.ram@[j] == 0u8,
                self.screen@ == Seq::new((SCREEN_WIDTH * SCREEN_HEIGHT) as nat, |j: int| false),
                self.v_reg@ == Seq::new(NUM_REGISTERS as nat, |j: int| 0u8),
                self.stack@ == Seq::new(STACK_SIZE as nat, |j: int| 0u16),
                self.keys@ == Seq::new(NUM_KEYS as nat, |j: int| false),
            decreases FONTSET_SIZE - k,
        {
            self.ram[k] = f[k];
            k += 1;
        }
        proof {
            assert(self@.ram =~= State::initial().ram);
            assert(self@.stack =~= State::initial().stack);
            assert(self@ =~= State::initial());
        }
    }

    /// Read-only view of the 64x32 framebuffer, row-major: pixel (x, y)
    /// is at index `x + SCREEN_WIDTH * y`.
    pub fn get_display(&self) -> (r: &[bool])
        requires
            self.wf(),
        ensures
            r@ == self@.screen,
    {
        self.screen.as_slice()
    }

    /// Record a key press or release reported by the host.
    pub fn keypress(&mut self, idx: usize, pressed: bool)
        requires
            old(self).wf(),
            idx < NUM_KEYS,
        ensures
            final(self).wf(),
            final(self)@ == (State {
                keys: old(self)@.keys.update(idx as int, pressed),
                ..old(self)@
            }),
    {
        self.keys[idx] = pressed;
        proof {
            assert(self@ =~= (State {
                keys: old(self)@.keys.update(idx as int, pressed),
                ..old(self)@
            }));
        }
    }

    /// Copy program bytes into memory starting at the load offset. The
    /// caller guarantees they fit within the remaining capacity.
    pub fn load(&mut self, data: &[u8])
        requires
            old(self).wf(),
            START_ADDR as int + data@.len() <= RAM_SIZE,
        ensures
            final(self).wf(),
            final(self)@ == (State { ram: load_ram(old(self)@.ram, data@), ..old(self)@ }),
    {
        let start: usize = START_ADDR as usize;
        let mut k: usize = 0;
        while k < data.len()
            invariant
                old(self).wf(),
                start == START_ADDR as usize,
                start + data@.len() <= RAM_SIZE,
                k <= data@.len(),
                self.ram@.len() == RAM_SIZE,
                forall|j: int| start <= j < start + k ==> self.ram@[j] == data@[j - start],
                forall|j: int|
                    (0 <= j < start || start + k <= j < RAM_SIZE) ==> self.ram@[j] == old(
                        self,
                    ).ram@[j],
                self.pc == old(self).pc,
                self.screen@ == old(self).screen@,
                self.v_reg@ == old(self).v_reg@,
                self.i_reg == old(self).i_reg,
                self.sp == old(self).sp,
                self.stack@ == old(self).stack@,
                self.keys@ == old(self).keys@,
                self.dt == old(self).dt,
                self.st == old(self).st,
            decreases data@.len() - k,
        {
            self.ram[start + k] = data[k];
            k += 1;
        }
        proof {
            assert(self@.ram =~= load_ram(old(self)@.ram, data@));
            assert(self@ =~= (State { ram: load_ram(old(self)@.ram, data@), ..old(self)@ }));
        }
    }

    /// Push a return address; the caller guarantees a free slot.
    pub fn push(&mut self, val: u16)
        requires
            old(self).wf(),
            old(self)@.stack.len() < STACK_SIZE,
        ensures
            final(self).wf(),
            final(self)@ == (State { stack: old(self)@.stack.push(val), ..old(self)@ }),
    {
        self.stack[self.sp as usize] = val;
        self.sp = self.sp + 1;
        proof {
            assert(self@.stack =~= old(self)@.stack.push(val));
            assert(self@ =~= (State { stack: old(self)@.stack.push(val), ..old(self)@ }));
        }
    }

    /// Pop the youngest return address; the caller guarantees one is
    /// pending.
    pub fn pop(&mut self) -> (r: u16)
        requires
            old(self).wf(),
            old(self)@.stack.len() > 0,
        ensures
            final(self).wf(),
            r == old(self)@.stack.last(),
            final(self)@ == (State { stack: old(self)@.stack.drop_last(), ..old(self)@ }),
    {
        self.sp = self.sp - 1;
        let r = self.stack[self.sp as usize];
        proof {
            assert(self@.stack =~= old(self)@.stack.drop_last());
            assert(self@ =~= (State { stack: old(self)@.stack.drop_last(), ..old(self)@ }));
        }
        r
    }

    /// One timer tick: each counter loses 1 when above zero, and a
    /// counter at zero stays there.
    pub fn tick_timers(&mut self)
        requires
            old(self).wf(),
        ensures
            final(self).wf(),
            final(self)@ == spec_tick_timers(old(self)@),
    {
        if self.dt > 0 {
            self.dt = self.dt - 1;
        }
        if self.st > 0 {
            // the 1 -> 0 transition is where a host would stop its tone;
            // the core itself emits nothing
            self.st = self.st - 1;
        }
        proof {
            assert(self@ =~= spec_tick_timers(old(self)@));
        }
    }

    /// The instruction word at the program counter: two consecutive
    /// bytes combined big-endian.
    fn fetch(&self) -> (op: u16)
        requires
            self.wf(),
            self@.pc <= 4094,
        ensures
            op == spec_fetch(self@),
    {
        let hi = self.ram[self.pc as usize];
        let lo = self.ram[self.pc as usize + 1];
        ((hi as u16) << 8) | (lo as u16)
    }

    /// Draw the `n`-row sprite at memory address I with origin (Vx, Vy):
    /// XOR each set sprite bit into the framebuffer, wrapping at both
    /// edges, and set VF to 1 exactly when some pixel was turned off.
    fn op_draw(&mut self, x: u8, y: u8, n: u8) -> (r: Result<(), Chip8Error>)
        requires
            old(self).wf(),
            old(self)@.pc <= 4094,
            x < 16,
            y < 16,
            n < 16,
        ensures
            final(self).wf(),
            match r {
                Ok(_) => exec_instr(old(self)@, Instr::Draw(x, y, n), 0u8) == Ok::<
                    State,
                    Chip8Error,
                >(final(self)@),
                Err(e) => final(self)@ == old(self)@ && exec_instr(
                    old(self)@,
                    Instr::Draw(x, y, n),
                    0u8,
                ) == Err::<State, Chip8Error>(e),
            },
    {
        let x0 = self.v_reg[x as usize];
        let y0 = self.v_reg[y as usize];
        if n > 0 && self.i_reg as usize + n as usize > RAM_SIZE {
            return Err(Chip8Error::MemoryOutOfBounds);
        }
        let i0 = self.i_reg as usize;
        let mut flipped = false;
        let mut row: usize = 0;
        proof {
            lemma_hit_start(old(self)@.ram, i0 as int, x0 as int, y0 as int, old(self)@.screen);
        }
        while row < n as usize
            invariant
                self.wf(),
                row <= n as usize,
                n < 16,
                n > 0 ==> i0 + n <= RAM_SIZE,
                x0 == old(self)@.v[x as int],
                y0 == old(self)@.v[y as int],
                i0 == old(self)@.i,
                self.pc == old(self).pc,
                self.ram@ == old(self).ram@,
                self.v_reg@ == old(self).v_reg@,
                self.i_reg == old(self).i_reg,
                self.sp == old(self).sp,
                self.stack@ == old(self).stack@,
                self.keys@ == old(self).keys@,
                self.dt == old(self).dt,
                self.st == old(self).st,
                self.screen@.len() == old(self)@.screen.len(),
                forall|p: int|
                    0 <= p < self.screen@.len() ==> self.screen@[p] == (old(self)@.screen[p]
                        != draw_hit_upto(
                        old(self)@.ram,
                        i0 as int,
                        x0 as int,
                        y0 as int,
                        row as int,
                        0,
                        p,
                    )),
                flipped == draw_collision_upto(
                    old(self)@.ram,
                    i0 as int,
                    x0 as int,
                    y0 as int,
                    old(self)@.screen,
                    row as int,
                    0,
                ),
            decreases n as usize - row,
        {
            let byte = self.ram[i0 + row];
            let mut col: usize = 0;
            while col < 8
                invariant
                    self.wf(),
                    col <= 8,
                    row < n as usize,
                    n < 16,
                    i0 + n <= RAM_SIZE,
                    x0 == old(self)@.v[x as int],
                    y0 == old(self)@.v[y as int],
                    i0 == old(self)@.i,
                    byte == old(self)@.ram[i0 + row],
                    self.pc == old(self).pc,
                    self.ram@ == old(self).ram@,
                    self.v_reg@ == old(self).v_reg@,
                    self.i_reg == old(self).i_reg,
                    self.sp == old(self).sp,
                    self.stack@ == old(self).stack@,
                    self.keys@ == old(self).keys@,
                    self.dt == old(self).dt,
                    self.st == old(self).st,
                    self.screen@.len() == old(self)@.screen.len(),
                    forall|p: int|
                        0 <= p < self.screen@.len() ==> self.screen@[p] == (old(self)@.screen[p]
                            != draw_hit_upto(
                            old(self)@.ram,
                            i0 as int,
                            x0 as int,
                            y0 as int,
                            row as int,
                            col as int,
                            p,
                        )),
                    flipped == draw_collision_upto(
                        old(self)@.ram,
                        i0 as int,
                        x0 as int,
                        y0 as int,
                        old(self)@.screen,
                        row as int,
                        col as int,
                    ),
                decreases 8 - col,
            {
                if byte & (0x80u8 >> (col as u8)) != 0 {
                    let px = (x0 as usize + col) % SCREEN_WIDTH;
                    let py = (y0 as usize + row) % SCREEN_HEIGHT;
                    let idx = px + SCREEN_WIDTH * py;
                    proof {
                        lemma_target_bounds(x0 as int, y0 as int, row as int, col as int);
                        assert(px == wrap_x(x0 as int, col as int));
                        assert(py == wrap_y(y0 as int, row as int));
                        assert(idx == draw_target(x0 as int, y0 as int, row as int, col as int));
                        lemma_no_prior_hit(
                            old(self)@.ram,
                            i0 as int,
                            x0 as int,
                            y0 as int,
                            row as int,
                            col as int,
                        );
                    }
                    let cur = self.screen[idx];
                    flipped = flipped || cur;
                    self.screen[idx] = !cur;
                    proof {
                        lemma_hit_step_set(
                            old(self)@.ram,
                            i0 as int,
                            x0 as int,
                            y0 as int,
                            old(self)@.screen,
                            row as int,
                            col as int,
                        );
                        assert(sprite_bit(old(self)@.ram[i0 + row], col as int));
                    }
                } else {
                    proof {
                        lemma_hit_step_clear(
                            old(self)@.ram,
                            i0 as int,
                            x0 as int,
                            y0 as int,
                            old(self)@.screen,
                            row as int,
                            col as int,
                        );
                        assert(!sprite_bit(old(self)@.ram[i0 + row], col as int));
                    }
                }
                col += 1;
            }
            proof {
                lemma_hit_row_roll(
                    old(self)@.ram,
                    i0 as int,
                    x0 as int,
                    y0 as int,
                    old(self)@.screen,
                    row as int,
                );
            }
            row += 1;
        }
        self.v_reg[15] = if flipped {
            1
        } else {
            0
        };
        self.pc = self.pc + 2;
        proof {
            assert(self@.screen =~= draw_screen(
                old(self)@.ram,
                i0 as int,
                x0 as int,
                y0 as int,
                n as int,
                old(self)@.screen,
            ));
            assert(exec_instr(old(self)@, Instr::Draw(x, y, n), 0u8) matches Ok(s2) && self@
                =~= s2);
        }
        Ok(())
    }

    /// Scan the keys in ascending order; store the first pressed index
    /// in Vx and move on, or leave the program counter on this
    /// instruction so the next cycle retries it.
    fn op_wait_key(&mut self, x: u8)
        requires
            old(self).wf(),
            old(self)@.pc <= 4094,
            x < 16,
        ensures
            final(self).wf(),
            exec_instr(old(self)@, Instr::WaitKey(x), 0u8) == Ok::<State, Chip8Error>(
                final(self)@,
            ),
    {
        let mut i: usize = 0;
        while i < NUM_KEYS
            invariant
                i <= NUM_KEYS,
                x < 16,
                old(self)@.pc <= 4094,
                self.wf(),
                self@ == old(self)@,
                self.sp == old(self).sp,
                self.stack@ == old(self).stack@,
                forall|j: int| 0 <= j < i ==> !self@.keys[j],
            decreases NUM_KEYS - i,
        {
            if self.keys[i] {
                self.v_reg[x as usize] = i as u8;
                self.pc = self.pc + 2;
                proof {
                    lemma_first_key_prefix(old(self)@.keys, i as int);
                    assert(exec_instr(old(self)@, Instr::WaitKey(x), 0u8) matches Ok(s2) && self@
                        =~= s2);
                }
                return ;
            }
            i += 1;
        }
        proof {
            lemma_first_key_prefix(old(self)@.keys, 16);
            assert(exec_instr(old(self)@, Instr::WaitKey(x), 0u8) matches Ok(s2) && self@ =~= s2);
        }
    }

    /// Store V0 through Vx into memory starting at I.
    fn op_store_regs(&mut self, x: u8) -> (r: Result<(), Chip8Error>)
        requires
            old(self).wf(),
            old(self)@.pc <= 4094,
            x < 16,
        ensures
            final(self).wf(),
            match r {
                Ok(_) => exec_instr(old(self)@, Instr::StoreRegs(x), 0u8) == Ok::<
                    State,
                    Chip8Error,
                >(final(self)@),
                Err(e) => final(self)@ == old(self)@ && exec_instr(
                    old(self)@,
                    Instr::StoreRegs(x),
                    0u8,
                ) == Err::<State, Chip8Error>(e),
            },
    {
        if self.i_reg as usize + x as usize >= RAM_SIZE {
            return Err(Chip8Error::MemoryOutOfBounds);
        }
        let i0 = self.i_reg as usize;
        let mut k: usize = 0;
        while k <= x as usize
            invariant
                self.wf(),
                k <= x as usize + 1,
                x < 16,
                i0 == old(self)@.i,
                i0 + x < RAM_SIZE,
                self.pc == old(self).pc,
                self.screen@ == old(self).screen@,
                self.v_reg@ == old(self).v_reg@,
                self.i_reg == old(self).i_reg,
                self.sp == old(self).sp,
                self.stack@ == old(self).stack@,
                self.keys@ == old(self).keys@,
                self.dt == old(self).dt,
                self.st == old(self).st,
                self.ram@.len() == RAM_SIZE,
                forall|j: int| i0 <= j < i0 + k ==> self.ram@[j] == old(self)@.v[j - i0],
                forall|j: int|
                    (0 <= j < i0 || i0 + k <= j < RAM_SIZE) ==> self.ram@[j] == old(self)@.ram[j],
            decreases x as usize + 1 - k,
        {
            self.ram[i0 + k] = self.v_reg[k];
            k += 1;
        }
        self.pc = self.pc + 2;
        proof {
            assert(exec_instr(old(self)@, Instr::StoreRegs(x), 0u8) matches Ok(s2) && self@
                =~= s2);
        }
        Ok(())
    }

    /// Load V0 through Vx from memory starting at I.
    fn op_load_regs(&mut self, x: u8) -> (r: Result<(), Chip8Error>)
        requires
            old(self).wf(),
            old(self)@.pc <= 4094,
            x < 16,
        ensures
            final(self).wf(),
            match r {
                Ok(_) => exec_instr(old(self)@, Instr::LoadRegs(x), 0u8) == Ok::<
                    State,
                    Chip8Error,
                >(final(self)@),
                Err(e) => final(self)@ == old(self)@ && exec_instr(
                    old(self)@,
                    Instr::LoadRegs(x),
                    0u8,
                ) == Err::<State, Chip8Error>(e),
            },
    {
        if self.i_reg as usize + x as usize >= RAM_SIZE {
            return Err(Chip8Error::MemoryOutOfBounds);
        }
        let i0 = self.i_reg as usize;
        let mut k: usize = 0;
        while k <= x as usize
            invariant
                self.wf(),
                k <= x as usize + 1,
                x < 16,
                i0 == old(self)@.i,
                i0 + x < RAM_SIZE,
                self.pc == old(self).pc,
                self.screen@ == old(self).screen@,
                self.ram@ == old(self).ram@,
                self.i_reg == old(self).i_reg,
                self.sp == old(self).sp,
                self.stack@ == old(self).stack@,
                self.keys@ == old(self).keys@,
                self.dt == old(self).dt,
                self.st == old(self).st,
                self.v_reg@.len() == NUM_REGISTERS,
                forall|j: int| 0 <= j < k ==> self.v_reg@[j] == old(self)@.ram[i0 + j],
                forall|j: int| k <= j < NUM_REGISTERS ==> self.v_reg@[j] == old(self)@.v[j],
            decreases x as usize + 1 - k,
        {
            self.v_reg[k] = self.ram[i0 + k];
            k += 1;
        }
        self.pc = self.pc + 2;
        proof {
            assert(exec_instr(old(self)@, Instr::LoadRegs(x), 0u8) matches Ok(s2) && self@
                =~= s2);
        }
        Ok(())
    }

    /// Execute exactly one instruction: fetch the word at the program
    /// counter, decode it, and apply its effect. On `Ok` the new state
    /// is the one the transition semantics prescribe for some byte of
    /// the random source; on `Err` the state is unchanged and the
    /// semantics fail the same way for every such byte.
    pub fn tick(&mut self) -> (r: Result<(), Chip8Error>)
        requires
            old(self).wf(),
        ensures
            final(self).wf(),
            match r {
                Ok(_) => exists|rnd: u8|
                    spec_step(old(self)@, rnd) == Ok::<State, Chip8Error>(final(self)@),
                Err(e) => final(self)@ == old(self)@ && forall|rnd: u8|
                    spec_step(old(self)@, rnd) == Err::<State, Chip8Error>(e),
            },
    {
        if self.pc > 4094 {
            return Err(Chip8Error::MemoryOutOfBounds);
        }
        let op = self.fetch();
        match decode(op) {
            Some(instr) => {
                let r = self.execute(instr);
                proof {
                    if r is Ok {
                        let rnd0 = choose|rnd: u8|
                            exec_instr(old(self)@, instr, rnd) == Ok::<State, Chip8Error>(self@);
                        assert(spec_step(old(self)@, rnd0) == Ok::<State, Chip8Error>(self@));
                    }
                }
                r
            },
            None => Err(Chip8Error::UnknownOpcode(op)),
        }
    }

    /// Apply one decoded instruction. The program counter still points
    /// at the instruction's own word; every arm accounts for the
    /// two-byte fetch itself.
    fn execute(&mut self, instr: Instr) -> (r: Result<(), Chip8Error>)
        requires
            old(self).wf(),
            old(self)@.pc <= 4094,
            instr_wf(instr),
        ensures
            final(self).wf(),
            match r {
                Ok(_) => exists|rnd: u8|
                    exec_instr(old(self)@, instr, rnd) == Ok::<State, Chip8Error>(final(self)@),
                Err(e) => final(self)@ == old(self)@ && forall|rnd: u8|
                    exec_instr(old(self)@, instr, rnd) == Err::<State, Chip8Error>(e),
            },
    {
        match instr {
            Instr::Nop => {
                self.pc = self.pc + 2;
                proof {
                    assert(exec_instr(old(self)@, instr, 0u8) == Ok::<State, Chip8Error>(self@));
                }
                Ok(())
            },
            Instr::Cls => {
                self.screen = filled_bools(SCREEN_WIDTH * SCREEN_HEIGHT, false);
                self.pc = self.pc + 2;
                proof {
                    assert(exec_instr(old(self)@, instr, 0u8) matches Ok(s2) && self@ =~= s2);
                }
                Ok(())
            },
            Instr::Ret => {
                if self.sp == 0 {
                    return Err(Chip8Error::StackUnderflow);
                }
                let addr = self.pop();
                self.pc = addr;
                proof {
                    assert(exec_instr(old(self)@, instr, 0u8) matches Ok(s2) && self@ =~= s2);
                }
                Ok(())
            },
            Instr::Jump(nnn) => {
                self.pc = nnn;
                proof {
                    assert(exec_instr(old(self)@, instr, 0u8) == Ok::<State, Chip8Error>(self@));
                }
                Ok(())
            },
            Instr::Call(nnn) => {
                if self.sp >= 16 {
                    return Err(Chip8Error::StackOverflow);
                }
                let ret = self.pc + 2;
                self.push(ret);
                self.pc = nnn;
                proof {
                    assert(exec_instr(old(self)@, instr, 0u8) matches Ok(s2) && self@ =~= s2);
                }
                Ok(())
            },
            Instr::SkipEqImm(x, nn) => {
                if self.v_reg[x as usize] == nn {
                    self.pc = self.pc + 4;
                } else {
                    self.pc = self.pc + 2;
                }
                proof {
                    assert(exec_instr(old(self)@, instr, 0u8) == Ok::<State, Chip8Error>(self@));
                }
                Ok(())
            },
            Instr::SkipNeImm(x, nn) => {
                if self.v_reg[x as usize] != nn {
                    self.pc = self.pc + 4;
                } else {
                    self.pc = self.pc + 2;
                }
                proof {
                    assert(exec_instr(old(self)@, instr, 0u8) == Ok::<State, Chip8Error>(self@));
                }
                Ok(())
            },
            Instr::SkipEqReg(x, y) => {
                if self.v_reg[x as usize] == self.v_reg[y as usize] {
                    self.pc = self.pc + 4;
                } else {
                    self.pc = self.pc + 2;
                }
                proof {
                    assert(exec_instr(old(self)@, instr, 0u8) == Ok::<State, Chip8Error>(self@));
                }
                Ok(())
            },
            Instr::SetImm(x, nn) => {
                self.v_reg[x as usize] = nn;
                self.pc = self.pc + 2;
                proof {
                    assert(exec_instr(old(self)@, instr, 0u8) matches Ok(s2) && self@ =~= s2);
                }
                Ok(())
            },
            Instr::AddImm(x, nn) => {
                let vx = self.v_reg[x as usize];
                let sum = vx as u16 + nn as u16;
                self.v_reg[x as usize] = (sum % 256) as u8;
                self.pc = self.pc + 2;
                proof {
                    assert(exec_instr(old(self)@, instr, 0u8) matches Ok(s2) && self@ =~= s2);
                }
                Ok(())
            },
            Instr::Copy(x, y) => {
                self.v_reg[x as usize] = self.v_reg[y as usize];
                self.pc = self.pc + 2;
                proof {
                    assert(exec_instr(old(self)@, instr, 0u8) matches Ok(s2) && self@ =~= s2);
                }
                Ok(())
            },
            Instr::Or(x, y) => {
                self.v_reg[x as usize] = self.v_reg[x as usize] | self.v_reg[y as usize];
                self.pc = self.pc + 2;
                proof {
                    assert(exec_instr(old(self)@, instr, 0u8) matches Ok(s2) && self@ =~= s2);
                }
                Ok(())
            },
            Instr::And(x, y) => {
                self.v_reg[x as usize] = self.v_reg[x as usize] & self.v_reg[y as usize];
                self.pc = self.pc + 2;
                proof {
                    assert(exec_instr(old(self)@, instr, 0u8) matches Ok(s2) && self@ =~= s2);
                }
                Ok(())
            },
            Instr::Xor(x, y) => {
                self.v_reg[x as usize] = self.v_reg[x as usize] ^ self.v_reg[y as usize];
                self.pc = self.pc + 2;
                proof {
                    assert(exec_instr(old(self)@, instr, 0u8) matches Ok(s2) && self@ =~= s2);
                }
                Ok(())
            },
            Instr::Add(x, y) => {
                let vx = self.v_reg[x as usize];
                let vy = self.v_reg[y as usize];
                let sum = vx as u16 + vy as u16;
                self.v_reg[x as usize] = (sum % 256) as u8;
                self.v_reg[15] = if sum >= 256 {
                    1
                } else {
                    0
                };
                self.pc = self.pc + 2;
                proof {
                    assert(exec_instr(old(self)@, instr, 0u8) matches Ok(s2) && self@ =~= s2);
                }
                Ok(())
            },
            Instr::Sub(x, y) => {
                let vx = self.v_reg[x as usize];
                let vy = self.v_reg[y as usize];
                let diff = vx as u16 + 256 - vy as u16;
                self.v_reg[x as usize] = (diff % 256) as u8;
                self.v_reg[15] = if vx < vy {
                    0
                } else {
                    1
                };
                self.pc = self.pc + 2;
                proof {
                    assert(exec_instr(old(self)@, instr, 0u8) matches Ok(s2) && self@ =~= s2);
                }
                Ok(())
            },
            Instr::ShiftRight(x) => {
                let vx = self.v_reg[x as usize];
                self.v_reg[x as usize] = vx / 2;
                self.v_reg[15] = vx % 2;
                self.pc = self.pc + 2;
                proof {
                    assert(exec_instr(old(self)@, instr, 0u8) matches Ok(s2) && self@ =~= s2);
                }
                Ok(())
            },
            Instr::SubFrom(x, y) => {
                let vx = self.v_reg[x as usize];
                let vy = self.v_reg[y as usize];
                let diff = vy as u16 + 256 - vx as u16;
                self.v_reg[x as usize] = (diff % 256) as u8;
                self.v_reg[15] = if vy < vx {
                    0
                } else {
                    1
                };
                self.pc = self.pc + 2;
                proof {
                    assert(exec_instr(old(self)@, instr, 0u8) matches Ok(s2) && self@ =~= s2);
                }
                Ok(())
            },
            Instr::ShiftLeft(x) => {
                let vx = self.v_reg[x as usize];
                self.v_reg[x as usize] = ((vx as u16 * 2) % 256) as u8;
                self.v_reg[15] = vx / 128;
                self.pc = self.pc + 2;
                proof {
                    assert(exec_instr(old(self)@, instr, 0u8) matches Ok(s2) && self@ =~= s2);
                }
                Ok(())
            },
            Instr::SkipNeReg(x, y) => {
                if self.v_reg[x as usize] != self.v_reg[y as usize] {
                    self.pc = self.pc + 4;
                } else {
                    self.pc = self.pc + 2;
                }
                proof {
                    assert(exec_instr(old(self)@, instr, 0u8) == Ok::<State, Chip8Error>(self@));
                }
                Ok(())
            },
            Instr::SetIndex(nnn) => {
                self.i_reg = nnn;
                self.pc = self.pc + 2;
                proof {
                    assert(exec_instr(old(self)@, instr, 0u8) == Ok::<State, Chip8Error>(self@));
                }
                Ok(())
            },
            Instr::JumpPlusV0(nnn) => {
                self.pc = self.v_reg[0] as u16 + nnn;
                proof {
                    assert(exec_instr(old(self)@, instr, 0u8) == Ok::<State, Chip8Error>(self@));
                }
                Ok(())
            },
            Instr::Random(x, nn) => {
                let b = random_byte();
                self.v_reg[x as usize] = b & nn;
                self.pc = self.pc + 2;
                proof {
                    assert(exec_instr(old(self)@, instr, b) matches Ok(s2) && self@ =~= s2);
                }
                Ok(())
            },
            Instr::Draw(x, y, n) => self.op_draw(x, y, n),
            Instr::SkipKey(x) => {
                let vx = self.v_reg[x as usize];
                if vx >= 16 {
                    return Err(Chip8Error::KeyOutOfRange);
                }
                if self.keys[vx as usize] {
                    self.pc = self.pc + 4;
                } else {
                    self.pc = self.pc + 2;
                }
                proof {
                    assert(exec_instr(old(self)@, instr, 0u8) == Ok::<State, Chip8Error>(self@));
                }
                Ok(())
            },
            Instr::SkipNoKey(x) => {
                let vx = self.v_reg[x as usize];
                if vx >= 16 {
                    return Err(Chip8Error::KeyOutOfRange);
                }
                if !self.keys[vx as usize] {
                    self.pc = self.pc + 4;
                } else {
                    self.pc = self.pc + 2;
                }
                proof {
                    assert(exec_instr(old(self)@, instr, 0u8) == Ok::<State, Chip8Error>(self@));
                }
                Ok(())
            },
            Instr::ReadDelay(x) => {
                self.v_reg[x as usize] = self.dt;
                self.pc = self.pc + 2;
                proof {
                    assert(exec_instr(old(self)@, instr, 0u8) matches Ok(s2) && self@ =~= s2);
                }
                Ok(())
            },
            Instr::WaitKey(x) => {
                self.op_wait_key(x);
                Ok(())
            },
            Instr::SetDelay(x) => {
                self.dt = self.v_reg[x as usize];
                self.pc = self.pc + 2;
                proof {
                    assert(exec_instr(old(self)@, instr, 0u8) == Ok::<State, Chip8Error>(self@));
                }
                Ok(())
            },
            Instr::SetSound(x) => {
                self.st = self.v_reg[x as usize];
                self.pc = self.pc + 2;
                proof {
                    assert(exec_instr(old(self)@, instr, 0u8) == Ok::<State, Chip8Error>(self@));
                }
                Ok(())
            },
            Instr::AddIndex(x) => {
                let vx = self.v_reg[x as usize];
                let sum = (self.i_reg as u32 + vx as u32) % 65536;
                self.i_reg = sum as u16;
                self.pc = self.pc + 2;
                proof {
                    assert(exec_instr(old(self)@, instr, 0u8) == Ok::<State, Chip8Error>(self@));
                }
                Ok(())
            },
            Instr::FontIndex(x) => {
                self.i_reg = self.v_reg[x as usize] as u16 * 5;
                self.pc = self.pc + 2;
                proof {
                    assert(exec_instr(old(self)@, instr, 0u8) == Ok::<State, Chip8Error>(self@));
                }
                Ok(())
            },
            Instr::StoreBcd(x) => {
                if self.i_reg > 4093 {
                    return Err(Chip8Error::MemoryOutOfBounds);
                }
                let vx = self.v_reg[x as usize];
                let i0 = self.i_reg as usize;
                self.ram[i0] = vx / 100;
                self.ram[i0 + 1] = (vx / 10) % 10;
                self.ram[i0 + 2] = vx % 10;
                self.pc = self.pc + 2;
                proof {
                    assert(exec_instr(old(self)@, instr, 0u8) matches Ok(s2) && self@ =~= s2);
                }
                Ok(())
            },
            Instr::StoreRegs(x) => self.op_store_regs(x),
            Instr::LoadRegs(x) => self.op_load_regs(x),
        }
    }
}

} // verus!
