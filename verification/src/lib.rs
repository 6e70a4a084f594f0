//! A CHIP-8 virtual machine with machine-checked contracts.
//!
//! The machine fetches 16-bit instruction words from a 4096-byte memory,
//! decodes them and executes them against sixteen 8-bit registers, an index
//! register, a sixteen-slot call stack, a program counter, two countdown
//! timers and a 64 by 32 monochrome screen.
//!
//! [`state`] says what the machine is and what every instruction does to it,
//! as mathematics; [`chip8`] is the machine that runs, proved to do exactly
//! that. The other modules are the parts it is built from, each usable on
//! its own: [`memory`] and the [`font`] it starts with, the [`display`] with
//! its sprite drawing, the [`stack`], the registers and the timers, and
//! [`opcode`] with the decoder.
//!
//! The library does no input or output. The one thing it takes from outside
//! is the random byte of the `CXNN` instruction; a caller that wants a
//! repeatable run passes the byte in instead.

pub mod chip8;
pub mod delay_timer;
pub mod display;
pub mod font;
pub mod index_register;
pub mod memory;
pub mod opcode;
pub mod program_counter;
pub mod sound_timer;
pub mod stack;
pub mod state;
pub mod timer;
pub mod variable_register;
