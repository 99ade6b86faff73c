//! Interpreter for the ARM EHABI compact unwind tables (`.ARM.exidx`).
//!
//! The library locates the exception-index entry covering an address and
//! replays that entry's unwind bytecode against a register snapshot, reading
//! saved words through a caller-supplied memory oracle.
use vstd::prelude::*;

pub mod memory;
pub mod state;
pub mod table;
pub mod unwind;

verus! {

} // verus!
