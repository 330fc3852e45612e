//! A compiler and a tape machine for the eight-symbol tape language.
//!
//! Source text is checked by [`validate`], compiled by
//! [`create_instructions`] into a sequence of [`Instruction`]s whose loops
//! carry resolved jump targets, and run on a [`Machine`]: a tape of byte
//! cells with wraparound arithmetic, a bounded pointer and a byte-wise read
//! protocol. The machine does no input or output of its own. A host drives
//! it step by step and performs what each step asks for; [`interpreter`] and
//! [`interpret`] do the same against streams held in memory.
//!
//! Two policies on characters that are not symbols stand side by side, on
//! purpose: the validator rejects them, the compiler skips them as comments.
//! [`interpret`] passes the source through the validator first and so is
//! strict; [`create_instructions`] alone is tolerant.

pub mod compiler;
pub mod error;
pub mod executor;
pub mod machine;
pub mod program;
pub mod syntax;
pub mod trace;
pub mod validator;

pub use compiler::create_instructions;
pub use error::Error;
pub use executor::{interpret, interpreter};
pub use machine::{Action, Machine, ReadEvent};
pub use program::Instruction;
pub use trace::trace_line;
pub use validator::validate;
