//! The mathematical model of the interpreter: a ghost record holding the
//! program counter, memory, framebuffer, registers, stack, key flags and
//! timers, together with the fixed initial state that `new` and `reset`
//! establish.

use vstd::prelude::*;

verus! {

/// Width of the monochrome framebuffer in pixels.
pub const SCREEN_WIDTH: usize = 64;

/// Height of the monochrome framebuffer in pixels.
pub const SCREEN_HEIGHT: usize = 32;

/// Number of addressable memory bytes.
pub const RAM_SIZE: usize = 4096;

/// Number of general-purpose 8-bit registers.
pub const NUM_REGISTERS: usize = 16;

/// Capacity of the return-address stack.
pub const STACK_SIZE: usize = 16;

/// Number of hexadecimal keys.
pub const NUM_KEYS: usize = 16;

/// Address at which programs are loaded and at which execution starts.
pub const START_ADDR: u16 = 0x200;

/// Number of bytes of the built-in font: 16 glyphs of 5 bytes each.
pub const FONTSET_SIZE: usize = 80;

/// Abstract interpreter state. The stack holds only the live return
/// addresses, youngest last.
#[verifier::ext_equal]
pub ghost struct State {
    pub pc: u16,
    pub ram: Seq<u8>,
    pub screen: Seq<bool>,
    pub v: Seq<u8>,
    pub i: u16,
    pub stack: Seq<u16>,
    pub keys: Seq<bool>,
    pub dt: u8,
    pub st: u8,
}

/// The built-in fixed-width bitmap font: one 5-byte glyph for each
/// hexadecimal digit 0 through F, kept at the bottom of memory.
pub open spec fn font() -> Seq<u8> {
    seq![
        0xF0u8, 0x90, 0x90, 0x90, 0xF0, // 0
        0x20, 0x60, 0x20, 0x20, 0x70, // 1
        0xF0, 0x10, 0xF0, 0x80, 0xF0, // 2
        0xF0, 0x10, 0xF0, 0x10, 0xF0, // 3
        0x90, 0x90, 0xF0, 0x10, 0x10, // 4
        0xF0, 0x80, 0xF0, 0x10, 0xF0, // 5
        0xF0, 0x80, 0xF0, 0x90, 0xF0, // 6
        0xF0, 0x10, 0x20, 0x40, 0x40, // 7
        0xF0, 0x90, 0xF0, 0x90, 0xF0, // 8
        0xF0, 0x90, 0xF0, 0x10, 0xF0, // 9
        0xF0, 0x90, 0xF0, 0x90, 0x90, // A
        0xE0, 0x90, 0xE0, 0x90, 0xE0, // B
        0xF0, 0x80, 0x80, 0x80, 0xF0, // C
        0xE0, 0x90, 0x90, 0x90, 0xE0, // D
        0xF0, 0x80, 0xF0, 0x80, 0xF0, // E
        0xF0, 0x80, 0xF0, 0x80, 0x80, // F
    ]
}

/// Byte `k` of the glyph for hexadecimal digit `d`.
pub open spec fn glyph_byte(d: int, k: int) -> u8 {
    font()[5 * d + k]
}

impl State {
    /// Dimensions every reachable state keeps: fixed sizes for memory,
    /// framebuffer, registers and keys, and a stack within capacity.
    pub open spec fn wf(self) -> bool {
        &&& self.ram.len() == RAM_SIZE
        &&& self.screen.len() == SCREEN_WIDTH * SCREEN_HEIGHT
        &&& self.v.len() == NUM_REGISTERS
        &&& self.stack.len() <= STACK_SIZE
        &&& self.keys.len() == NUM_KEYS
    }

    /// The state `new` constructs and `reset` restores: font in the first
    /// 80 bytes of memory, everything else zeroed, pc at the load offset.
    pub open spec fn initial() -> State {
        State {
            pc: START_ADDR,
            ram: Seq::new(RAM_SIZE as nat, |j: int| if j < FONTSET_SIZE { font()[j] } else { 0u8 }),
            screen: Seq::new((SCREEN_WIDTH * SCREEN_HEIGHT) as nat, |j: int| false),
            v: Seq::new(NUM_REGISTERS as nat, |j: int| 0u8),
            i: 0,
            stack: Seq::empty(),
            keys: Seq::new(NUM_KEYS as nat, |j: int| false),
            dt: 0,
            st: 0,
        }
    }
}

} // verus!
