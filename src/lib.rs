//! The verified core of a safe facade over a debugging engine's command,
//! symbol, memory and register interfaces.
//!
//! The engine is reached through foreign calls, each with its own buffer
//! convention. This crate holds those conventions as verified functions on
//! plain values: NUL-terminated text going in, sized buffers and tagged
//! values coming out, the decisions of removing a synthetic module, the
//! reading of the module list, and the resolution of register names.
use vstd::prelude::*;

pub mod error;
pub mod module;
pub mod registers;
pub mod text;
pub mod value;

verus! {

} // verus!
