//! Core of a source-level debugger for arithmetic circuits with embedded
//! unconstrained bytecode: printable values, the variable store, the source
//! instrumenter, debug locations, the stepping rules and the front-end
//! protocol.

pub mod field;
pub mod text;
pub mod printable;
pub mod value;
pub mod decode;
pub mod format;
pub mod print;
pub mod debug_types;
pub mod debug_vars;
pub mod foreign_calls;
pub mod black_box;
pub mod location;
pub mod program;
pub mod engine;
pub mod protocol;
pub mod ast;
pub mod instrument;
pub mod repl;
pub mod dap;
pub mod symbols;
pub mod test_report;
