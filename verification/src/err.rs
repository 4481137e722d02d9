//! Failures surfaced to the embedder.
//!
//! Preparation-time errors (linking, typing, lookup) and runtime traps are
//! both carried by one sum type, so that a trap unwinds no host stack
//! frame: the interpreter returns it as an ordinary value.

use vstd::prelude::*;

use crate::types;
use crate::types::Addr;

verus! {

#[derive(Clone, Debug, PartialEq)]
pub enum Error {
    // Preparation-time errors.
    ModuleDecode,
    ModuleParse,
    ModuleValidate,
    ModuleInstanceExportNotFound(String),
    ImportUnknown,
    ImportTypeMismatch,
    ImmutableGlobal,
    TypeMismatch,
    InvalidLimit(types::Limits),
    UndefinedFunction(Addr),
    UndefinedGlobal(Addr),
    UndefinedMem(Addr),
    UndefinedTable(Addr),
    UndefinedModuleInstance(Addr),
    UndefinedLocal(types::Index),
    /// A host function instance carries no callable body in this core, so
    /// invoking one fails.
    HostFunctionNotCallable,
    // Traps raised during execution.
    TrapUnreachable,
    IntegerDivideByZero,
    IntegerOverflow,
    InvalidConversionToInteger,
    OutOfBoundMemoryAccess,
    OutOfBoundTableAccess,
    UninitializedElement,
    IndirectCallTypeMismatch,
    StackOverflow,
    // Internal consistency failures: these indicate an ill-typed program
    // reached the interpreter.
    InvariantViolatedAllResultsAreValues,
    AssertFailedEnoughVauesToReturn,
    AssertFailedFrameOnTopOfStack,
    AssertFailedFuncInstanceExists,
    AssertFailedEnoughStackValuesForFunctionCall,
}

} // verus!
