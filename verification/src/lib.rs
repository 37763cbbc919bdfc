//! A sampling profiler engine for a running interpreter process.
//!
//! The engine reads raw memory out of a target process, decodes the interpreter's
//! thread, frame, code and string structures through per-version layout tables, and
//! rebuilds the call stack of every interpreter thread. Each decoding step and each
//! decision of the sampling loops carries a contract.

pub mod error;
pub mod text;
pub mod bytes;
pub mod layout;
pub mod tables;
pub mod lnotab;
pub mod strings;
pub mod stack_trace;
pub mod memory;
pub mod maps;
pub mod binary;
pub mod version;
pub mod walker;
pub mod locator;
pub mod spy;
pub mod sampler;
pub mod flame;
pub mod cli;
