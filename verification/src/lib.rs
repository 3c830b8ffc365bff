//! A verified interpreter core for the classic 8-bit, 16-register,
//! 4KB-addressable instruction set: fetch-decode-execute, the full
//! instruction semantics, registers, memory, stack, key flags, the
//! monochrome framebuffer and the two countdown timers.
//!
//! The host drives everything: it loads program bytes, delivers key
//! transitions, calls [`Emu::tick`] at the desired instruction rate,
//! calls [`Emu::tick_timers`] at a fixed cadence, and polls the
//! framebuffer through [`Emu::get_display`].

pub mod draw;
pub mod emu;
pub mod isa;
pub mod laws;
pub mod state;
pub mod step;

pub use emu::Emu;
pub use isa::Instr;
pub use state::SCREEN_HEIGHT;
pub use state::SCREEN_WIDTH;
pub use state::State;
pub use step::Chip8Error;
