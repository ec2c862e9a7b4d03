//! A bytecode virtual machine: a binary class-file parser, a bytecode
//! decoder, and an execution engine that interprets decoded instructions
//! against per-thread call frames and a shared class registry.

pub mod class;
pub mod code;
pub mod constant;
pub mod error;
pub mod interp;
pub mod laws;
pub mod reader;
pub mod thread;
pub mod utf8;
pub mod value;

use vstd::prelude::*;

verus! {

} // verus!
