//! A CHIP-8 virtual machine: a small register/memory model driven by a
//! fetch-decode-execute cycle over 16-bit instruction words.
//!
//! The machine state and every instruction's transition are specified against
//! a mathematical model (`model::Model`); the execution engine lives in
//! `chip`, and the behavioural theorems about the instruction set in
//! `lemmas`.

use vstd::prelude::*;

pub mod chip;
pub mod lemmas;
pub mod model;
mod rng;

verus! {

/// First memory address of a loaded program image.
pub const START_ADDRESS: u16 = 0x200;

/// Bytes of addressable memory.
pub const MEMORY_SIZE: usize = 4096;

/// Largest program image that fits between the program origin and the end of
/// memory.
pub const ROM_CAPACITY: usize = 3584;

/// Number of bytes in the built-in font: 16 glyphs of 5 bytes each.
pub const FONTSET_SIZE: usize = 80;

/// First memory address of the built-in font glyphs.
pub const FONTSET_START_ADDRESS: u16 = 0x0;

/// Width of the monochrome framebuffer in pixels.
pub const VIDEO_WIDTH: usize = 64;

/// Height of the monochrome framebuffer in pixels.
pub const VIDEO_HEIGHT: usize = 32;

/// Number of framebuffer cells.
pub const VIDEO_SIZE: usize = 2048;

/// Capacity of the subroutine call stack.
pub const STACK_DEPTH: usize = 16;

/// Number of general-purpose registers.
pub const NUM_REGISTERS: usize = 16;

/// Number of keys on the keypad.
pub const NUM_KEYS: usize = 16;

/// Every way an engine operation can fail. No error path corrupts machine
/// state outside its documented destination.
#[derive(Clone, Copy, Debug, PartialEq, Eq, Structural)]
pub enum Chip8Error {
    /// A program image longer than `ROM_CAPACITY` was handed to `load_rom`.
    ImageTooLarge,
    /// A subroutine call was executed with the call stack already full.
    StackOverflow,
    /// A return was executed with the call stack already empty.
    StackUnderflow,
    /// The fetched instruction word matches no known opcode pattern.
    DecodeError,
}

} // verus!
