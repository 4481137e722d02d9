//! An embeddable interpreter for a stack-based, WebAssembly-style
//! instruction set.
//!
//! A host instantiates a validated module against a shared store and then
//! invokes exported functions with typed arguments, receiving typed results
//! or a well-defined trap.  The store is the single owner of all runtime
//! state; module instances and frames refer to it through stable integer
//! addresses.

pub mod embedding;
pub mod err;
pub mod instr;
pub mod modules;
pub mod numeric;
pub mod runtime;
pub mod types;
pub mod validation;
pub mod vm;
