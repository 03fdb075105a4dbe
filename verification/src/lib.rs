//! A verified CHIP-8 interpreter core.
//!
//! The machine itself — memory, registers, call stack, frame buffer,
//! keypad state, and the fetch/decode/execute cycle — lives here and is
//! verified against a mathematical model of the architecture.  Rendering,
//! physical keyboard handling and ROM file loading are left to the host
//! program, which drives the machine through plain values.

use vstd::prelude::*;

pub mod chip8;
pub mod decoder;
pub mod dir;
pub mod laws;
pub mod semantics;
pub mod state;

verus! {

} // verus!
