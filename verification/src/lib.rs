//! A verified interpreter core for an 8-bit virtual machine with 4096 bytes
//! of memory, 16 general-purpose registers, a call stack, a 64x32 monochrome
//! framebuffer, two countdown timers, and a 16-key input device.
//!
//! The interpreter fetches a 16-bit instruction word at the program counter,
//! decodes its family and operands, and executes the state transition with
//! bit-exact arithmetic. Presentation, audio and physical input live outside
//! this crate; the core exposes the framebuffer grid, the timer values and an
//! explicit "awaiting a key" mode in their place.

use vstd::prelude::*;

pub mod cpu;
pub mod display;
pub mod keypad;
pub mod ram;
mod rng;
pub mod timer;

verus! {

/// Number of addressable bytes of machine memory.
pub const RAM_SIZE: usize = 4096;

/// Number of general-purpose registers.
pub const REGISTER_COUNT: usize = 16;

/// Capacity of the call stack.
pub const STACK_SIZE: usize = 16;

/// Width of the framebuffer in pixels.
pub const SCREEN_WIDTH: usize = 64;

/// Height of the framebuffer in pixels.
pub const SCREEN_HEIGHT: usize = 32;

/// A fatal machine condition: the interpreter surfaces these to its caller
/// instead of corrupting state. Unrecognized opcodes are not fatal; they
/// degrade to a two-byte-advancing no-op.
#[derive(Clone, Copy, Debug, PartialEq, Eq, Structural)]
pub enum Fault {
    /// A return instruction found the call stack empty.
    StackUnderflow,
    /// A call instruction found the call stack at capacity.
    StackOverflow,
    /// An instruction addressed a byte at or past the end of memory.
    MemoryOutOfBounds,
}

} // verus!
