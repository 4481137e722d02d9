//! The instruction set evaluated by the interpreter.
//!
//! The control instructions cover `nop`, `unreachable`, `return`, `call`
//! and `call_indirect`; structured control blocks are outside this core's
//! instruction set.  Floating-point constants are carried as their IEEE
//! 754 bit patterns: moves and constants are bit-pattern-preserving, and
//! no arithmetic is defined on them in this core.

use vstd::prelude::*;

use crate::types;
use crate::types::Index;

verus! {

#[derive(Clone, Copy, Debug, PartialEq, Eq, Structural)]
pub enum Instr {
    // Constants.
    I32Const(u32),
    I64Const(u64),
    /// A 32-bit float constant, as its bit pattern.
    F32Const(u32),
    /// A 64-bit float constant, as its bit pattern.
    F64Const(u64),
    // 32-bit integer operators.
    I32Clz,
    I32Ctz,
    I32PopCnt,
    I32Eqz,
    I32Eq,
    I32Ne,
    I32LtU,
    I32LtS,
    I32GtU,
    I32GtS,
    I32LeU,
    I32LeS,
    I32GeU,
    I32GeS,
    I32Add,
    I32Sub,
    I32Mul,
    I32DivU,
    I32DivS,
    I32RemU,
    I32RemS,
    I32Not,
    I32And,
    I32Or,
    I32Xor,
    I32Shl,
    I32ShrU,
    I32ShrS,
    I32Rotl,
    I32Rotr,
    // 64-bit integer operators.
    I64Clz,
    I64Ctz,
    I64PopCnt,
    I64Eqz,
    I64Eq,
    I64Ne,
    I64LtU,
    I64LtS,
    I64GtU,
    I64GtS,
    I64LeU,
    I64LeS,
    I64GeU,
    I64GeS,
    I64Add,
    I64Sub,
    I64Mul,
    I64DivU,
    I64DivS,
    I64RemU,
    I64RemS,
    I64Not,
    I64And,
    I64Or,
    I64Xor,
    I64Shl,
    I64ShrU,
    I64ShrS,
    I64Rotl,
    I64Rotr,
    // Reference instructions.
    RefNull(types::Ref),
    RefFunc(Index),
    RefIsNull,
    // Variable instructions.
    LocalGet(Index),
    LocalSet(Index),
    LocalTee(Index),
    GlobalGet(Index),
    GlobalSet(Index),
    // Control instructions.
    Nop,
    Unreachable,
    Return,
    Call(Index),
    CallIndirect(Index, Index),
}

/// An instruction sequence, as a function body or an initializer
/// expression.
pub type Expr = Vec<Instr>;

} // verus!
