//! A CHIP-8 virtual machine: interpreter, framebuffer and keypad latch.
//!
//! The machine never talks to a window, a speaker or a keyboard itself: a host
//! feeds it key levels, calls [`cpu::Cpu::emulate_cycle`] once per tick, and
//! reads back the framebuffer and the one-shot beep signal.
use vstd::prelude::*;

pub mod alu;
pub mod cpu;
pub mod decode;
pub mod graphics;
pub mod keypad;

verus! {

/// A fault that stops an instruction (or a ROM load) before it changes anything.
#[derive(Clone, Copy, Debug, PartialEq, Eq, Structural)]
pub enum Fault {
    /// PC, I, or a sprite / BCD / register-transfer access reached past 0xFFF.
    MemoryOutOfBounds,
    /// A call with all sixteen stack slots in use.
    StackOverflow,
    /// A return with an empty stack.
    StackUnderflow,
    /// A ROM that does not fit between 0x200 and the end of memory.
    RomTooLarge,
    /// A sprite taller than the fifteen rows an opcode can ask for.
    SpriteTooTall,
}

} // verus!
