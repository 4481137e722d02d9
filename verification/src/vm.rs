//! The stack-machine interpreter.
//!
//! `run` evaluates an instruction sequence against a value stack, the
//! current frame's locals and the store's globals.  Its whole behaviour is
//! pinned by the specification interpreter `run_spec`: a total function
//! from the initial state to the final store, the final locals and either
//! the result values or the error.  Traps are ordinary error values; no
//! host stack frame unwinds.
//!
//! A malformed program (one that validation would have rejected) never
//! panics: the interpreter answers `Error::TypeMismatch` or the matching
//! `Undefined*` error instead.

use vstd::prelude::*;

use vstd::arithmetic::power2::{lemma2_to64, lemma2_to64_rest, pow2};

use crate::err::Error;
use crate::instr::Instr;
use crate::numeric::{
    as_signed,
    clz_rec,
    ctz_rec,
    lemma_clz_le,
    lemma_ctz_le,
    lemma_popcnt_le,
    lemma_u32_add_wraps,
    lemma_u32_mul_wraps,
    lemma_u32_sub_wraps,
    lemma_u64_add_wraps,
    lemma_u64_mul_wraps,
    lemma_u64_sub_wraps,
    popcnt_rec,
    shl_w,
    shr_s_w,
    shr_u_w,
    to_unsigned,
    trunc_div,
    trunc_rem,
    SupportedInteger,
};
use crate::modules::copy_instrs;
use crate::runtime::{
    default_of,
    kind_of,
    Frame,
    FrameState,
    FrameV,
    FuncInstance,
    FuncInstanceV,
    Global,
    ModuleInstanceV,
    Num,
    Ref,
    Store,
    StoreV,
    Val,
};
use crate::types;

verus! {

/// A placeholder for a trap token; traps travel as `Error` values.
pub struct Trap {}

// ---------------------------------------------------------------------
// The specification of the pure stack operators.
// ---------------------------------------------------------------------

/// Popping a value off the stack; an empty stack is an ill-typed program.
pub open spec fn spop(stack: Seq<Val>) -> Result<(Val, Seq<Val>), Error> {
    if stack.len() >= 1 {
        Result::Ok((stack.last(), stack.drop_last()))
    } else {
        Result::Err(Error::TypeMismatch)
    }
}

/// Popping a 32-bit integer.
pub open spec fn spop_i32(stack: Seq<Val>) -> Result<(u32, Seq<Val>), Error> {
    match spop(stack) {
        Result::Ok((Val::Num(Num::I32(v)), s)) => Result::Ok((v, s)),
        Result::Ok(_) => Result::Err(Error::TypeMismatch),
        Result::Err(e) => Result::Err(e),
    }
}

/// Popping a 64-bit integer.
pub open spec fn spop_i64(stack: Seq<Val>) -> Result<(u64, Seq<Val>), Error> {
    match spop(stack) {
        Result::Ok((Val::Num(Num::I64(v)), s)) => Result::Ok((v, s)),
        Result::Ok(_) => Result::Err(Error::TypeMismatch),
        Result::Err(e) => Result::Err(e),
    }
}

/// A boolean pushed as the canonical 32-bit integer.
pub open spec fn bool_val(b: bool) -> Val {
    if b {
        Val::Num(Num::I32(1))
    } else {
        Val::Num(Num::I32(0))
    }
}

/// The zero-initialized locals a function's declared local kinds give.
pub open spec fn defaults_of(ts: Seq<types::Value>) -> Seq<Val> {
    ts.map_values(|t: types::Value| default_of(t))
}

/// The result of a 32-bit unary operator.
pub open spec fn i32_unop_val(op: Instr, a: u32) -> u32 {
    match op {
        Instr::I32Clz => clz_rec(a as int, 32) as u32,
        Instr::I32Ctz => ctz_rec(a as int, 32) as u32,
        Instr::I32PopCnt => popcnt_rec(a as nat) as u32,
        Instr::I32Not => !a,
        _ => 0,
    }
}

/// The result of a 64-bit unary operator.
pub open spec fn i64_unop_val(op: Instr, a: u64) -> u64 {
    match op {
        Instr::I64Clz => clz_rec(a as int, 64) as u64,
        Instr::I64Ctz => ctz_rec(a as int, 64) as u64,
        Instr::I64PopCnt => popcnt_rec(a as nat) as u64,
        Instr::I64Not => !a,
        _ => 0,
    }
}

/// The result of a 32-bit binary operator on `a` (deeper) and `b` (top),
/// or the trap it raises.
pub open spec fn i32_binop_val(op: Instr, a: u32, b: u32) -> Result<u32, Error> {
    match op {
        Instr::I32Add => Result::Ok(to_unsigned(a + b, 32) as u32),
        Instr::I32Sub => Result::Ok(to_unsigned(a - b, 32) as u32),
        Instr::I32Mul => Result::Ok(to_unsigned(a * b, 32) as u32),
        Instr::I32DivU => if b == 0 {
            Result::Err(Error::IntegerDivideByZero)
        } else {
            Result::Ok(a / b)
        },
        Instr::I32DivS => if b == 0 {
            Result::Err(Error::IntegerDivideByZero)
        } else if a == 0x8000_0000 && b == 0xffff_ffff {
            Result::Err(Error::IntegerOverflow)
        } else {
            Result::Ok(to_unsigned(trunc_div(as_signed(a as int, 32), as_signed(b as int, 32)), 32) as u32)
        },
        Instr::I32RemU => if b == 0 {
            Result::Err(Error::IntegerDivideByZero)
        } else {
            Result::Ok(a % b)
        },
        Instr::I32RemS => if b == 0 {
            Result::Err(Error::IntegerDivideByZero)
        } else {
            Result::Ok(to_unsigned(trunc_rem(as_signed(a as int, 32), as_signed(b as int, 32)), 32) as u32)
        },
        Instr::I32And => Result::Ok(a & b),
        Instr::I32Or => Result::Ok(a | b),
        Instr::I32Xor => Result::Ok(a ^ b),
        Instr::I32Shl => Result::Ok(shl_w(a as int, b as int, 32) as u32),
        Instr::I32ShrU => Result::Ok(shr_u_w(a as int, b as int, 32) as u32),
        Instr::I32ShrS => Result::Ok(shr_s_w(a as int, b as int, 32) as u32),
        Instr::I32Rotl => Result::Ok(a.rotl_spec(b)),
        Instr::I32Rotr => Result::Ok(a.rotr_spec(b)),
        _ => Result::Err(Error::TypeMismatch),
    }
}

/// The result of a 64-bit binary operator on `a` (deeper) and `b` (top),
/// or the trap it raises.
pub open spec fn i64_binop_val(op: Instr, a: u64, b: u64) -> Result<u64, Error> {
    match op {
        Instr::I64Add => Result::Ok(to_unsigned(a + b, 64) as u64),
        Instr::I64Sub => Result::Ok(to_unsigned(a - b, 64) as u64),
        Instr::I64Mul => Result::Ok(to_unsigned(a * b, 64) as u64),
        Instr::I64DivU => if b == 0 {
            Result::Err(Error::IntegerDivideByZero)
        } else {
            Result::Ok(a / b)
        },
        Instr::I64DivS => if b == 0 {
            Result::Err(Error::IntegerDivideByZero)
        } else if a == 0x8000_0000_0000_0000 && b == 0xffff_ffff_ffff_ffff {
            Result::Err(Error::IntegerOverflow)
        } else {
            Result::Ok(to_unsigned(trunc_div(as_signed(a as int, 64), as_signed(b as int, 64)), 64) as u64)
        },
        Instr::I64RemU => if b == 0 {
            Result::Err(Error::IntegerDivideByZero)
        } else {
            Result::Ok(a % b)
        },
        Instr::I64RemS => if b == 0 {
            Result::Err(Error::IntegerDivideByZero)
        } else {
            Result::Ok(to_unsigned(trunc_rem(as_signed(a as int, 64), as_signed(b as int, 64)), 64) as u64)
        },
        Instr::I64And => Result::Ok(a & b),
        Instr::I64Or => Result::Ok(a | b),
        Instr::I64Xor => Result::Ok(a ^ b),
        Instr::I64Shl => Result::Ok(shl_w(a as int, b as int, 64) as u64),
        Instr::I64ShrU => Result::Ok(shr_u_w(a as int, b as int, 64) as u64),
        Instr::I64ShrS => Result::Ok(shr_s_w(a as int, b as int, 64) as u64),
        Instr::I64Rotl => Result::Ok(a.rotl_spec(b)),
        Instr::I64Rotr => Result::Ok(a.rotr_spec(b)),
        _ => Result::Err(Error::TypeMismatch),
    }
}

/// The truth value of a 32-bit relational operator on `a` (deeper) and
/// `b` (top).
pub open spec fn i32_relop_val(op: Instr, a: u32, b: u32) -> bool {
    match op {
        Instr::I32Eq => a == b,
        Instr::I32Ne => a != b,
        Instr::I32LtU => a < b,
        Instr::I32LtS => as_signed(a as int, 32) < as_signed(b as int, 32),
        Instr::I32GtU => a > b,
        Instr::I32GtS => as_signed(a as int, 32) > as_signed(b as int, 32),
        Instr::I32LeU => a <= b,
        Instr::I32LeS => as_signed(a as int, 32) <= as_signed(b as int, 32),
        Instr::I32GeU => a >= b,
        Instr::I32GeS => as_signed(a as int, 32) >= as_signed(b as int, 32),
        _ => false,
    }
}

/// The truth value of a 64-bit relational operator on `a` (deeper) and
/// `b` (top).
pub open spec fn i64_relop_val(op: Instr, a: u64, b: u64) -> bool {
    match op {
        Instr::I64Eq => a == b,
        Instr::I64Ne => a != b,
        Instr::I64LtU => a < b,
        Instr::I64LtS => as_signed(a as int, 64) < as_signed(b as int, 64),
        Instr::I64GtU => a > b,
        Instr::I64GtS => as_signed(a as int, 64) > as_signed(b as int, 64),
        Instr::I64LeU => a <= b,
        Instr::I64LeS => as_signed(a as int, 64) <= as_signed(b as int, 64),
        Instr::I64GeU => a >= b,
        Instr::I64GeS => as_signed(a as int, 64) >= as_signed(b as int, 64),
        _ => false,
    }
}

/// Whether an instruction is a 32-bit binary operator.
pub open spec fn is_i32_binop(op: Instr) -> bool {
    match op {
        Instr::I32Add | Instr::I32Sub | Instr::I32Mul | Instr::I32DivU | Instr::I32DivS
            | Instr::I32RemU | Instr::I32RemS | Instr::I32And | Instr::I32Or | Instr::I32Xor
            | Instr::I32Shl | Instr::I32ShrU | Instr::I32ShrS | Instr::I32Rotl
            | Instr::I32Rotr => true,
        _ => false,
    }
}

/// Whether an instruction is a 64-bit binary operator.
pub open spec fn is_i64_binop(op: Instr) -> bool {
    match op {
        Instr::I64Add | Instr::I64Sub | Instr::I64Mul | Instr::I64DivU | Instr::I64DivS
            | Instr::I64RemU | Instr::I64RemS | Instr::I64And | Instr::I64Or | Instr::I64Xor
            | Instr::I64Shl | Instr::I64ShrU | Instr::I64ShrS | Instr::I64Rotl
            | Instr::I64Rotr => true,
        _ => false,
    }
}

/// Whether an instruction only reads and writes the value stack.
pub open spec fn is_stack_op(op: Instr) -> bool {
    match op {
        Instr::Nop => false,
        Instr::Unreachable => false,
        Instr::Return => false,
        Instr::Call(_) => false,
        Instr::CallIndirect(_, _) => false,
        Instr::RefFunc(_) => false,
        Instr::LocalGet(_) => false,
        Instr::LocalSet(_) => false,
        Instr::LocalTee(_) => false,
        Instr::GlobalGet(_) => false,
        Instr::GlobalSet(_) => false,
        _ => true,
    }
}

/// What a pure stack operator does to the stack: the new stack, or the
/// trap or typing error it stops on.
pub open spec fn step_stack(op: Instr, stack: Seq<Val>) -> Result<Seq<Val>, Error> {
    match op {
        Instr::I32Const(v) => Result::Ok(stack.push(Val::Num(Num::I32(v)))),
        Instr::I64Const(v) => Result::Ok(stack.push(Val::Num(Num::I64(v)))),
        Instr::F32Const(v) => Result::Ok(stack.push(Val::Num(Num::F32(v)))),
        Instr::F64Const(v) => Result::Ok(stack.push(Val::Num(Num::F64(v)))),
        Instr::RefNull(rt) => Result::Ok(stack.push(Val::Ref(Ref::Null(rt)))),
        Instr::RefIsNull => match spop(stack) {
            Result::Ok((Val::Ref(rf), s)) => Result::Ok(
                s.push(bool_val(rf matches Ref::Null(_))),
            ),
            Result::Ok(_) => Result::Err(Error::TypeMismatch),
            Result::Err(e) => Result::Err(e),
        },
        Instr::I32Clz | Instr::I32Ctz | Instr::I32PopCnt | Instr::I32Not => match spop_i32(stack) {
            Result::Ok((a, s)) => Result::Ok(s.push(Val::Num(Num::I32(i32_unop_val(op, a))))),
            Result::Err(e) => Result::Err(e),
        },
        Instr::I64Clz | Instr::I64Ctz | Instr::I64PopCnt | Instr::I64Not => match spop_i64(stack) {
            Result::Ok((a, s)) => Result::Ok(s.push(Val::Num(Num::I64(i64_unop_val(op, a))))),
            Result::Err(e) => Result::Err(e),
        },
        Instr::I32Eqz => match spop_i32(stack) {
            Result::Ok((a, s)) => Result::Ok(s.push(bool_val(a == 0))),
            Result::Err(e) => Result::Err(e),
        },
        Instr::I64Eqz => match spop_i64(stack) {
            Result::Ok((a, s)) => Result::Ok(s.push(bool_val(a == 0))),
            Result::Err(e) => Result::Err(e),
        },
        Instr::I32Eq | Instr::I32Ne | Instr::I32LtU | Instr::I32LtS | Instr::I32GtU
            | Instr::I32GtS | Instr::I32LeU | Instr::I32LeS | Instr::I32GeU | Instr::I32GeS => {
            match spop_i32(stack) {
                Result::Ok((b, s1)) => match spop_i32(s1) {
                    Result::Ok((a, s2)) => Result::Ok(s2.push(bool_val(i32_relop_val(op, a, b)))),
                    Result::Err(e) => Result::Err(e),
                },
                Result::Err(e) => Result::Err(e),
            }
        },
        Instr::I64Eq | Instr::I64Ne | Instr::I64LtU | Instr::I64LtS | Instr::I64GtU
            | Instr::I64GtS | Instr::I64LeU | Instr::I64LeS | Instr::I64GeU | Instr::I64GeS => {
            match spop_i64(stack) {
                Result::Ok((b, s1)) => match spop_i64(s1) {
                    Result::Ok((a, s2)) => Result::Ok(s2.push(bool_val(i64_relop_val(op, a, b)))),
                    Result::Err(e) => Result::Err(e),
                },
                Result::Err(e) => Result::Err(e),
            }
        },
        Instr::I32Add | Instr::I32Sub | Instr::I32Mul | Instr::I32DivU | Instr::I32DivS
            | Instr::I32RemU | Instr::I32RemS | Instr::I32And | Instr::I32Or | Instr::I32Xor
            | Instr::I32Shl | Instr::I32ShrU | Instr::I32ShrS | Instr::I32Rotl
            | Instr::I32Rotr => match spop_i32(stack) {
            Result::Ok((b, s1)) => match spop_i32(s1) {
                Result::Ok((a, s2)) => match i32_binop_val(op, a, b) {
                    Result::Ok(v) => Result::Ok(s2.push(Val::Num(Num::I32(v)))),
                    Result::Err(e) => Result::Err(e),
                },
                Result::Err(e) => Result::Err(e),
            },
            Result::Err(e) => Result::Err(e),
        },
        Instr::I64Add | Instr::I64Sub | Instr::I64Mul | Instr::I64DivU | Instr::I64DivS
            | Instr::I64RemU | Instr::I64RemS | Instr::I64And | Instr::I64Or | Instr::I64Xor
            | Instr::I64Shl | Instr::I64ShrU | Instr::I64ShrS | Instr::I64Rotl
            | Instr::I64Rotr => match spop_i64(stack) {
            Result::Ok((b, s1)) => match spop_i64(s1) {
                Result::Ok((a, s2)) => match i64_binop_val(op, a, b) {
                    Result::Ok(v) => Result::Ok(s2.push(Val::Num(Num::I64(v)))),
                    Result::Err(e) => Result::Err(e),
                },
                Result::Err(e) => Result::Err(e),
            },
            Result::Err(e) => Result::Err(e),
        },
        _ => Result::Err(Error::TypeMismatch),
    }
}

// ---------------------------------------------------------------------
// The executable stack operators.
// ---------------------------------------------------------------------

/// Pops any value; an empty stack is an ill-typed program.
fn pop_value(stack: &mut Vec<Val>) -> (r: Result<Val, Error>)
    ensures
        match spop(old(stack)@) {
            Result::Ok((v, s)) => r == Result::<Val, Error>::Ok(v) && final(stack)@ == s,
            Result::Err(e) => r == Result::<Val, Error>::Err(e),
        },
{
    match stack.pop() {
        Option::Some(v) => Result::Ok(v),
        Option::None => Result::Err(Error::TypeMismatch),
    }
}

/// Pops a 32-bit integer.
fn pop_i32(stack: &mut Vec<Val>) -> (r: Result<u32, Error>)
    ensures
        match spop_i32(old(stack)@) {
            Result::Ok((v, s)) => r == Result::<u32, Error>::Ok(v) && final(stack)@ == s,
            Result::Err(e) => r == Result::<u32, Error>::Err(e),
        },
{
    match stack.pop() {
        Option::Some(Val::Num(Num::I32(v))) => Result::Ok(v),
        Option::Some(_) => Result::Err(Error::TypeMismatch),
        Option::None => Result::Err(Error::TypeMismatch),
    }
}

/// Pops a 64-bit integer.
fn pop_i64(stack: &mut Vec<Val>) -> (r: Result<u64, Error>)
    ensures
        match spop_i64(old(stack)@) {
            Result::Ok((v, s)) => r == Result::<u64, Error>::Ok(v) && final(stack)@ == s,
            Result::Err(e) => r == Result::<u64, Error>::Err(e),
        },
{
    match stack.pop() {
        Option::Some(Val::Num(Num::I64(v))) => Result::Ok(v),
        Option::Some(_) => Result::Err(Error::TypeMismatch),
        Option::None => Result::Err(Error::TypeMismatch),
    }
}

/// Evaluates a pure stack operator, exactly as `step_stack` states it.
fn step_stack_exec(op: Instr, stack: &mut Vec<Val>) -> (r: Result<(), Error>)
    requires
        is_stack_op(op),
    ensures
        match step_stack(op, old(stack)@) {
            Result::Ok(s) => r == Result::<(), Error>::Ok(()) && final(stack)@ == s,
            Result::Err(e) => r == Result::<(), Error>::Err(e),
        },
{
    match op {
        Instr::I32Const(v) => {
            stack.push(Val::Num(Num::I32(v)));
            Result::Ok(())
        },
        Instr::I64Const(v) => {
            stack.push(Val::Num(Num::I64(v)));
            Result::Ok(())
        },
        Instr::F32Const(v) => {
            stack.push(Val::Num(Num::F32(v)));
            Result::Ok(())
        },
        Instr::F64Const(v) => {
            stack.push(Val::Num(Num::F64(v)));
            Result::Ok(())
        },
        Instr::RefNull(rt) => {
            stack.push(Val::Ref(Ref::Null(rt)));
            Result::Ok(())
        },
        Instr::RefIsNull => {
            let v = pop_value(stack)?;
            match v {
                Val::Ref(Ref::Null(_)) => {
                    stack.push(Val::Num(Num::I32(1)));
                    Result::Ok(())
                },
                Val::Ref(_) => {
                    stack.push(Val::Num(Num::I32(0)));
                    Result::Ok(())
                },
                _ => Result::Err(Error::TypeMismatch),
            }
        },
        Instr::I32Clz => {
            let a = pop_i32(stack)?;
            proof {
                lemma_clz_le(a as int, 32);
            }
            stack.push(Val::Num(Num::I32(a.clz())));
            Result::Ok(())
        },
        Instr::I32Ctz => {
            let a = pop_i32(stack)?;
            proof {
                lemma_ctz_le(a as int, 32);
            }
            stack.push(Val::Num(Num::I32(a.ctz())));
            Result::Ok(())
        },
        Instr::I32PopCnt => {
            let a = pop_i32(stack)?;
            proof {
                lemma2_to64();
                lemma_popcnt_le(a as nat, 32);
            }
            stack.push(Val::Num(Num::I32(a.popcnt())));
            Result::Ok(())
        },
        Instr::I32Not => {
            let a = pop_i32(stack)?;
            stack.push(Val::Num(Num::I32(!a)));
            Result::Ok(())
        },
        Instr::I64Clz => {
            let a = pop_i64(stack)?;
            proof {
                lemma_clz_le(a as int, 64);
            }
            stack.push(Val::Num(Num::I64(a.clz())));
            Result::Ok(())
        },
        Instr::I64Ctz => {
            let a = pop_i64(stack)?;
            proof {
                lemma_ctz_le(a as int, 64);
            }
            stack.push(Val::Num(Num::I64(a.ctz())));
            Result::Ok(())
        },
        Instr::I64PopCnt => {
            let a = pop_i64(stack)?;
            proof {
                lemma2_to64();
                lemma2_to64_rest();
                lemma_popcnt_le(a as nat, 64);
            }
            stack.push(Val::Num(Num::I64(a.popcnt())));
            Result::Ok(())
        },
        Instr::I64Not => {
            let a = pop_i64(stack)?;
            stack.push(Val::Num(Num::I64(!a)));
            Result::Ok(())
        },
        Instr::I32Eqz => {
            let a = pop_i32(stack)?;
            stack.push(if a == 0 {
                Val::Num(Num::I32(1))
            } else {
                Val::Num(Num::I32(0))
            });
            Result::Ok(())
        },
        Instr::I64Eqz => {
            let a = pop_i64(stack)?;
            stack.push(if a == 0 {
                Val::Num(Num::I32(1))
            } else {
                Val::Num(Num::I32(0))
            });
            Result::Ok(())
        },
        Instr::I32Eq | Instr::I32Ne | Instr::I32LtU | Instr::I32LtS | Instr::I32GtU
            | Instr::I32GtS | Instr::I32LeU | Instr::I32LeS | Instr::I32GeU | Instr::I32GeS => {
            let b = pop_i32(stack)?;
            let a = pop_i32(stack)?;
            let t = match op {
                Instr::I32Eq => a == b,
                Instr::I32Ne => a != b,
                Instr::I32LtU => a < b,
                Instr::I32LtS => SupportedInteger::lts(a, b),
                Instr::I32GtU => a > b,
                Instr::I32GtS => SupportedInteger::gts(a, b),
                Instr::I32LeU => a <= b,
                Instr::I32LeS => SupportedInteger::les(a, b),
                Instr::I32GeU => a >= b,
                _ => SupportedInteger::ges(a, b),
            };
            stack.push(if t {
                Val::Num(Num::I32(1))
            } else {
                Val::Num(Num::I32(0))
            });
            Result::Ok(())
        },
        Instr::I64Eq | Instr::I64Ne | Instr::I64LtU | Instr::I64LtS | Instr::I64GtU
            | Instr::I64GtS | Instr::I64LeU | Instr::I64LeS | Instr::I64GeU | Instr::I64GeS => {
            let b = pop_i64(stack)?;
            let a = pop_i64(stack)?;
            let t = match op {
                Instr::I64Eq => a == b,
                Instr::I64Ne => a != b,
                Instr::I64LtU => a < b,
                Instr::I64LtS => SupportedInteger::lts(a, b),
                Instr::I64GtU => a > b,
                Instr::I64GtS => SupportedInteger::gts(a, b),
                Instr::I64LeU => a <= b,
                Instr::I64LeS => SupportedInteger::les(a, b),
                Instr::I64GeU => a >= b,
                _ => SupportedInteger::ges(a, b),
            };
            stack.push(if t {
                Val::Num(Num::I32(1))
            } else {
                Val::Num(Num::I32(0))
            });
            Result::Ok(())
        },
        Instr::I32Add | Instr::I32Sub | Instr::I32Mul | Instr::I32DivU | Instr::I32DivS
            | Instr::I32RemU | Instr::I32RemS | Instr::I32And | Instr::I32Or | Instr::I32Xor
            | Instr::I32Shl | Instr::I32ShrU | Instr::I32ShrS | Instr::I32Rotl
            | Instr::I32Rotr => {
            let b = pop_i32(stack)?;
            let a = pop_i32(stack)?;
            let v = i32_binop_exec(op, a, b)?;
            stack.push(Val::Num(Num::I32(v)));
            Result::Ok(())
        },
        Instr::I64Add | Instr::I64Sub | Instr::I64Mul | Instr::I64DivU | Instr::I64DivS
            | Instr::I64RemU | Instr::I64RemS | Instr::I64And | Instr::I64Or | Instr::I64Xor
            | Instr::I64Shl | Instr::I64ShrU | Instr::I64ShrS | Instr::I64Rotl
            | Instr::I64Rotr => {
            let b = pop_i64(stack)?;
            let a = pop_i64(stack)?;
            let v = i64_binop_exec(op, a, b)?;
            stack.push(Val::Num(Num::I64(v)));
            Result::Ok(())
        },
        _ => {
            proof {
                assert(false);
            }
            Result::Err(Error::TypeMismatch)
        },
    }
}

/// Evaluates a 32-bit binary operator, exactly as `i32_binop_val` states
/// it.
fn i32_binop_exec(op: Instr, a: u32, b: u32) -> (r: Result<u32, Error>)
    requires
        is_i32_binop(op),
    ensures
        r == i32_binop_val(op, a, b),
{
    match op {
        Instr::I32Add => {
            proof {
                lemma_u32_add_wraps(a, b);
            }
            Result::Ok(a.wrapping_add(b))
        },
        Instr::I32Sub => {
            proof {
                lemma_u32_sub_wraps(a, b);
            }
            Result::Ok(a.wrapping_sub(b))
        },
        Instr::I32Mul => {
            proof {
                lemma_u32_mul_wraps(a, b);
            }
            Result::Ok(a.wrapping_mul(b))
        },
        Instr::I32DivU => {
            if b == 0 {
                Result::Err(Error::IntegerDivideByZero)
            } else {
                Result::Ok(a / b)
            }
        },
        Instr::I32DivS => {
            if b == 0 {
                Result::Err(Error::IntegerDivideByZero)
            } else if a == 0x8000_0000 && b == 0xffff_ffff {
                Result::Err(Error::IntegerOverflow)
            } else {
                proof {
                    lemma2_to64();
                }
                Result::Ok(SupportedInteger::div_s(a, b))
            }
        },
        Instr::I32RemU => {
            if b == 0 {
                Result::Err(Error::IntegerDivideByZero)
            } else {
                Result::Ok(a % b)
            }
        },
        Instr::I32RemS => {
            if b == 0 {
                Result::Err(Error::IntegerDivideByZero)
            } else {
                proof {
                    lemma2_to64();
                }
                Result::Ok(SupportedInteger::rem_s(a, b))
            }
        },
        Instr::I32And => Result::Ok(a & b),
        Instr::I32Or => Result::Ok(a | b),
        Instr::I32Xor => Result::Ok(a ^ b),
        Instr::I32Shl => Result::Ok(SupportedInteger::shl(a, b)),
        Instr::I32ShrU => Result::Ok(SupportedInteger::shr_u(a, b)),
        Instr::I32ShrS => Result::Ok(SupportedInteger::shr_s(a, b)),
        Instr::I32Rotl => Result::Ok(SupportedInteger::rotl(a, b)),
        _ => Result::Ok(SupportedInteger::rotr(a, b)),
    }
}

/// Evaluates a 64-bit binary operator, exactly as `i64_binop_val` states
/// it.
fn i64_binop_exec(op: Instr, a: u64, b: u64) -> (r: Result<u64, Error>)
    requires
        is_i64_binop(op),
    ensures
        r == i64_binop_val(op, a, b),
{
    match op {
        Instr::I64Add => {
            proof {
                lemma_u64_add_wraps(a, b);
            }
            Result::Ok(a.wrapping_add(b))
        },
        Instr::I64Sub => {
            proof {
                lemma_u64_sub_wraps(a, b);
            }
            Result::Ok(a.wrapping_sub(b))
        },
        Instr::I64Mul => {
            proof {
                lemma_u64_mul_wraps(a, b);
            }
            Result::Ok(a.wrapping_mul(b))
        },
        Instr::I64DivU => {
            if b == 0 {
                Result::Err(Error::IntegerDivideByZero)
            } else {
                Result::Ok(a / b)
            }
        },
        Instr::I64DivS => {
            if b == 0 {
                Result::Err(Error::IntegerDivideByZero)
            } else if a == 0x8000_0000_0000_0000 && b == 0xffff_ffff_ffff_ffff {
                Result::Err(Error::IntegerOverflow)
            } else {
                proof {
                    lemma2_to64();
                    lemma2_to64_rest();
                }
                Result::Ok(SupportedInteger::div_s(a, b))
            }
        },
        Instr::I64RemU => {
            if b == 0 {
                Result::Err(Error::IntegerDivideByZero)
            } else {
                Result::Ok(a % b)
            }
        },
        Instr::I64RemS => {
            if b == 0 {
                Result::Err(Error::IntegerDivideByZero)
            } else {
                proof {
                    lemma2_to64();
                    lemma2_to64_rest();
                }
                Result::Ok(SupportedInteger::rem_s(a, b))
            }
        },
        Instr::I64And => Result::Ok(a & b),
        Instr::I64Or => Result::Ok(a | b),
        Instr::I64Xor => Result::Ok(a ^ b),
        Instr::I64Shl => Result::Ok(SupportedInteger::shl(a, b)),
        Instr::I64ShrU => Result::Ok(SupportedInteger::shr_u(a, b)),
        Instr::I64ShrS => Result::Ok(SupportedInteger::shr_s(a, b)),
        Instr::I64Rotl => Result::Ok(SupportedInteger::rotl(a, b)),
        _ => Result::Ok(SupportedInteger::rotr(a, b)),
    }
}

/// Law: unsigned division by zero traps, on either width.
pub proof fn lemma_div_u_zero_traps(a32: u32, a64: u64)
    ensures
        i32_binop_val(Instr::I32DivU, a32, 0) == Result::<u32, Error>::Err(
            Error::IntegerDivideByZero,
        ),
        i64_binop_val(Instr::I64DivU, a64, 0) == Result::<u64, Error>::Err(
            Error::IntegerDivideByZero,
        ),
{
}

// ---------------------------------------------------------------------
// The specification interpreter.
// ---------------------------------------------------------------------

/// The final state of an invocation in the specification interpreter:
/// the store, the caller's locals, and the result values or the error.
pub struct RunOut {
    pub store: StoreV,
    pub locals: Seq<Val>,
    pub result: Result<Seq<Val>, Error>,
}

/// The outcome of calling one function: the store, the caller's stack
/// (arguments replaced by results on success), and the error if any.
pub struct CallOut {
    pub store: StoreV,
    pub stack: Seq<Val>,
    pub err: Option<Error>,
}

/// Resolving an indirect call: from the popped selector to the function
/// address, or the trap that stops it.
pub open spec fn resolve_call_indirect(
    store: StoreV,
    inst: ModuleInstanceV,
    sel: u32,
    tidx: usize,
    tyidx: usize,
) -> Result<usize, Error> {
    if tidx >= inst.tables.len() {
        Result::Err(Error::UndefinedTable(tidx))
    } else {
        let ta = inst.tables[tidx as int];
        if ta >= store.tables.len() {
            Result::Err(Error::UndefinedTable(ta))
        } else {
            let tab = store.tables[ta as int];
            if sel >= tab.elem.len() {
                Result::Err(Error::OutOfBoundTableAccess)
            } else {
                match tab.elem[sel as int] {
                    Ref::Null(_) => Result::Err(Error::UninitializedElement),
                    Ref::Extern(_) => Result::Err(Error::TypeMismatch),
                    Ref::Func(fa) => if fa >= store.funcinstances.len() {
                        Result::Err(Error::UndefinedFunction(fa))
                    } else if tyidx >= inst.types.len() {
                        Result::Err(Error::TypeMismatch)
                    } else {
                        let expected = inst.types[tyidx as int];
                        let actual = store.funcinstances[fa as int].functype();
                        if actual.input != expected.input || actual.output != expected.output {
                            Result::Err(Error::IndirectCallTypeMismatch)
                        } else {
                            Result::Ok(fa)
                        }
                    },
                }
            }
        }
    }
}

/// The specification interpreter: what evaluating `program` from
/// instruction `ip` does to the store, the locals and the stack, and what
/// it returns.  It is a total function; ill-typed programs reach error
/// outcomes, never undefined behaviour.
#[verifier::opaque]
pub open spec fn run_spec(
    store: StoreV,
    fmod: usize,
    farity: nat,
    locals: Seq<Val>,
    program: Seq<Instr>,
    ip: nat,
    stack: Seq<Val>,
    depth: nat,
) -> RunOut
    decreases depth, program.len() - ip, 1int,
{
    if fmod >= store.modules.len() {
        RunOut { store, locals, result: Result::Err(Error::UndefinedModuleInstance(fmod)) }
    } else if ip >= program.len() {
        RunOut { store, locals, result: Result::Ok(stack) }
    } else {
        let op = program[ip as int];
        match op {
            Instr::Nop => run_spec(store, fmod, farity, locals, program, ip + 1, stack, depth),
            Instr::Unreachable => RunOut {
                store,
                locals,
                result: Result::Err(Error::TrapUnreachable),
            },
            Instr::RefFunc(fidx) => {
                let inst = store.modules[fmod as int];
                if fidx >= inst.funct.len() {
                    RunOut { store, locals, result: Result::Err(Error::UndefinedFunction(fidx)) }
                } else {
                    run_spec(
                        store,
                        fmod,
                        farity,
                        locals,
                        program,
                        ip + 1,
                        stack.push(Val::Ref(Ref::Func(inst.funct[fidx as int]))),
                        depth,
                    )
                }
            },
            Instr::LocalGet(i) => if i >= locals.len() {
                RunOut { store, locals, result: Result::Err(Error::UndefinedLocal(i)) }
            } else {
                run_spec(
                    store,
                    fmod,
                    farity,
                    locals,
                    program,
                    ip + 1,
                    stack.push(locals[i as int]),
                    depth,
                )
            },
            Instr::LocalSet(i) => match spop(stack) {
                Result::Ok((v, s)) => if i >= locals.len() {
                    RunOut { store, locals, result: Result::Err(Error::UndefinedLocal(i)) }
                } else {
                    run_spec(store, fmod, farity, locals.update(i as int, v), program, ip + 1, s, depth)
                },
                Result::Err(e) => RunOut { store, locals, result: Result::Err(e) },
            },
            Instr::LocalTee(i) => if stack.len() == 0 {
                RunOut { store, locals, result: Result::Err(Error::TypeMismatch) }
            } else if i >= locals.len() {
                RunOut { store, locals, result: Result::Err(Error::UndefinedLocal(i)) }
            } else {
                run_spec(
                    store,
                    fmod,
                    farity,
                    locals.update(i as int, stack.last()),
                    program,
                    ip + 1,
                    stack,
                    depth,
                )
            },
            Instr::GlobalGet(i) => {
                let inst = store.modules[fmod as int];
                if i >= inst.globals.len() {
                    RunOut { store, locals, result: Result::Err(Error::UndefinedGlobal(i)) }
                } else {
                    let ga = inst.globals[i as int];
                    if ga >= store.globals.len() {
                        RunOut { store, locals, result: Result::Err(Error::UndefinedGlobal(ga)) }
                    } else {
                        run_spec(
                            store,
                            fmod,
                            farity,
                            locals,
                            program,
                            ip + 1,
                            stack.push(store.globals[ga as int].value),
                            depth,
                        )
                    }
                }
            },
            Instr::GlobalSet(i) => match spop(stack) {
                Result::Err(e) => RunOut { store, locals, result: Result::Err(e) },
                Result::Ok((v, s)) => {
                    let inst = store.modules[fmod as int];
                    if i >= inst.globals.len() {
                        RunOut { store, locals, result: Result::Err(Error::UndefinedGlobal(i)) }
                    } else {
                        let ga = inst.globals[i as int];
                        if ga >= store.globals.len() {
                            RunOut {
                                store,
                                locals,
                                result: Result::Err(Error::UndefinedGlobal(ga)),
                            }
                        } else {
                            let g = store.globals[ga as int];
                            if !(g.globaltype.mutable matches types::Mut::Var) {
                                RunOut { store, locals, result: Result::Err(Error::ImmutableGlobal) }
                            } else if kind_of(v) != g.globaltype.val {
                                RunOut { store, locals, result: Result::Err(Error::TypeMismatch) }
                            } else {
                                run_spec(
                                    StoreV {
                                        globals: store.globals.update(
                                            ga as int,
                                            Global { globaltype: g.globaltype, value: v },
                                        ),
                                        ..store
                                    },
                                    fmod,
                                    farity,
                                    locals,
                                    program,
                                    ip + 1,
                                    s,
                                    depth,
                                )
                            }
                        }
                    }
                },
            },
            Instr::Return => if stack.len() < farity {
                RunOut {
                    store,
                    locals,
                    result: Result::Err(Error::AssertFailedEnoughVauesToReturn),
                }
            } else {
                RunOut {
                    store,
                    locals,
                    result: Result::Ok(
                        stack.subrange(stack.len() - farity, stack.len() as int),
                    ),
                }
            },
            Instr::Call(idx) => {
                let inst = store.modules[fmod as int];
                if idx >= inst.funct.len() {
                    RunOut {
                        store,
                        locals,
                        result: Result::Err(Error::AssertFailedFuncInstanceExists),
                    }
                } else {
                    let c = invoke_spec(store, inst.funct[idx as int], stack, depth);
                    match c.err {
                        Option::Some(e) => RunOut {
                            store: c.store,
                            locals,
                            result: Result::Err(e),
                        },
                        Option::None => run_spec(
                            c.store,
                            fmod,
                            farity,
                            locals,
                            program,
                            ip + 1,
                            c.stack,
                            depth,
                        ),
                    }
                }
            },
            Instr::CallIndirect(tidx, tyidx) => match spop_i32(stack) {
                Result::Err(e) => RunOut { store, locals, result: Result::Err(e) },
                Result::Ok((sel, s)) => {
                    let inst = store.modules[fmod as int];
                    match resolve_call_indirect(store, inst, sel, tidx, tyidx) {
                        Result::Err(e) => RunOut { store, locals, result: Result::Err(e) },
                        Result::Ok(faddr) => {
                            let c = invoke_spec(store, faddr, s, depth);
                            match c.err {
                                Option::Some(e) => RunOut {
                                    store: c.store,
                                    locals,
                                    result: Result::Err(e),
                                },
                                Option::None => run_spec(
                                    c.store,
                                    fmod,
                                    farity,
                                    locals,
                                    program,
                                    ip + 1,
                                    c.stack,
                                    depth,
                                ),
                            }
                        },
                    }
                },
            },
            _ => match step_stack(op, stack) {
                Result::Ok(s2) => run_spec(store, fmod, farity, locals, program, ip + 1, s2, depth),
                Result::Err(e) => RunOut { store, locals, result: Result::Err(e) },
            },
        }
    }
}

/// Calling the function at `faddr` with arguments taken off `stack`:
/// pops the parameters, runs the body in a fresh frame at one less call
/// depth, and pushes the results.
pub open spec fn invoke_spec(store: StoreV, faddr: usize, stack: Seq<Val>, depth: nat) -> CallOut
    decreases depth, 0int, 0int,
{
    if faddr >= store.funcinstances.len() {
        CallOut { store, stack, err: Option::Some(Error::UndefinedFunction(faddr)) }
    } else {
        match store.funcinstances[faddr as int] {
            FuncInstanceV::Host { .. } => CallOut {
                store,
                stack,
                err: Option::Some(Error::HostFunctionNotCallable),
            },
            FuncInstanceV::Internal { functype, module, code } => {
                let n = functype.input.len();
                if stack.len() < n {
                    CallOut {
                        store,
                        stack,
                        err: Option::Some(Error::AssertFailedEnoughStackValuesForFunctionCall),
                    }
                } else if depth == 0 {
                    CallOut { store, stack, err: Option::Some(Error::StackOverflow) }
                } else {
                    let callee_locals = stack.subrange(stack.len() - n, stack.len() as int)
                        + defaults_of(code.locals);
                    let sub = run_spec(
                        store,
                        module,
                        functype.output.len(),
                        callee_locals,
                        code.body,
                        0,
                        Seq::empty(),
                        (depth - 1) as nat,
                    );
                    match sub.result {
                        Result::Err(e) => CallOut {
                            store: sub.store,
                            stack,
                            err: Option::Some(e),
                        },
                        Result::Ok(vals) => if vals.len() != functype.output.len() {
                            CallOut { store: sub.store, stack, err: Option::Some(Error::TypeMismatch) }
                        } else {
                            CallOut {
                                store: sub.store,
                                stack: stack.take(stack.len() - n) + vals,
                                err: Option::None,
                            }
                        },
                    }
                }
            },
        }
    }
}

/// Execution only ever rewrites the store's globals: module instances,
/// functions, tables, memories and segments come out as they went in.
pub proof fn lemma_run_frame(
    store: StoreV,
    fmod: usize,
    farity: nat,
    locals: Seq<Val>,
    program: Seq<Instr>,
    ip: nat,
    stack: Seq<Val>,
    depth: nat,
)
    ensures
        ({
            let out = run_spec(store, fmod, farity, locals, program, ip, stack, depth);
            &&& out.store.modules == store.modules
            &&& out.store.funcinstances == store.funcinstances
            &&& out.store.tables == store.tables
            &&& out.store.mems == store.mems
            &&& out.store.elems == store.elems
            &&& out.store.datas == store.datas
        }),
    decreases depth, program.len() - ip, 1int,
{
    reveal_with_fuel(run_spec, 1);
    if fmod >= store.modules.len() || ip >= program.len() {
    } else {
        let op = program[ip as int];
        match op {
            Instr::Nop => {
                lemma_run_frame(store, fmod, farity, locals, program, ip + 1, stack, depth);
            },
            Instr::Unreachable => {},
            Instr::RefFunc(fidx) => {
                let inst = store.modules[fmod as int];
                if fidx < inst.funct.len() {
                    lemma_run_frame(
                        store,
                        fmod,
                        farity,
                        locals,
                        program,
                        ip + 1,
                        stack.push(Val::Ref(Ref::Func(inst.funct[fidx as int]))),
                        depth,
                    );
                }
            },
            Instr::LocalGet(i) => {
                if i < locals.len() {
                    lemma_run_frame(
                        store,
                        fmod,
                        farity,
                        locals,
                        program,
                        ip + 1,
                        stack.push(locals[i as int]),
                        depth,
                    );
                }
            },
            Instr::LocalSet(i) => {
                match spop(stack) {
                    Result::Ok((v, s)) => {
                        if i < locals.len() {
                            lemma_run_frame(
                                store,
                                fmod,
                                farity,
                                locals.update(i as int, v),
                                program,
                                ip + 1,
                                s,
                                depth,
                            );
                        }
                    },
                    Result::Err(_) => {},
                }
            },
            Instr::LocalTee(i) => {
                if stack.len() > 0 && i < locals.len() {
                    lemma_run_frame(
                        store,
                        fmod,
                        farity,
                        locals.update(i as int, stack.last()),
                        program,
                        ip + 1,
                        stack,
                        depth,
                    );
                }
            },
            Instr::GlobalGet(i) => {
                let inst = store.modules[fmod as int];
                if i < inst.globals.len() && inst.globals[i as int] < store.globals.len() {
                    lemma_run_frame(
                        store,
                        fmod,
                        farity,
                        locals,
                        program,
                        ip + 1,
                        stack.push(store.globals[inst.globals[i as int] as int].value),
                        depth,
                    );
                }
            },
            Instr::GlobalSet(i) => {
                match spop(stack) {
                    Result::Ok((v, s)) => {
                        let inst = store.modules[fmod as int];
                        if i < inst.globals.len() {
                            let ga = inst.globals[i as int];
                            if ga < store.globals.len() {
                                let g = store.globals[ga as int];
                                if (g.globaltype.mutable matches types::Mut::Var) && kind_of(v)
                                    == g.globaltype.val {
                                    lemma_run_frame(
                                        StoreV {
                                            globals: store.globals.update(
                                                ga as int,
                                                Global { globaltype: g.globaltype, value: v },
                                            ),
                                            ..store
                                        },
                                        fmod,
                                        farity,
                                        locals,
                                        program,
                                        ip + 1,
                                        s,
                                        depth,
                                    );
                                }
                            }
                        }
                    },
                    Result::Err(_) => {},
                }
            },
            Instr::Return => {},
            Instr::Call(idx) => {
                let inst = store.modules[fmod as int];
                if idx < inst.funct.len() {
                    let c = invoke_spec(store, inst.funct[idx as int], stack, depth);
                    lemma_invoke_frame(store, inst.funct[idx as int], stack, depth);
                    if (c.err matches Option::None) {
                        lemma_run_frame(c.store, fmod, farity, locals, program, ip + 1, c.stack, depth);
                    }
                }
            },
            Instr::CallIndirect(tidx, tyidx) => {
                match spop_i32(stack) {
                    Result::Ok((sel, s)) => {
                        let inst = store.modules[fmod as int];
                        match resolve_call_indirect(store, inst, sel, tidx, tyidx) {
                            Result::Ok(faddr) => {
                                let c = invoke_spec(store, faddr, s, depth);
                                lemma_invoke_frame(store, faddr, s, depth);
                                if (c.err matches Option::None) {
                                    lemma_run_frame(
                                        c.store,
                                        fmod,
                                        farity,
                                        locals,
                                        program,
                                        ip + 1,
                                        c.stack,
                                        depth,
                                    );
                                }
                            },
                            Result::Err(_) => {},
                        }
                    },
                    Result::Err(_) => {},
                }
            },
            _ => {
                match step_stack(op, stack) {
                    Result::Ok(s2) => {
                        lemma_run_frame(store, fmod, farity, locals, program, ip + 1, s2, depth);
                    },
                    Result::Err(_) => {},
                }
            },
        }
    }
}

/// Calling a function only ever rewrites the store's globals.
#[verifier::rlimit(100)]
pub proof fn lemma_invoke_frame(store: StoreV, faddr: usize, stack: Seq<Val>, depth: nat)
    ensures
        ({
            let c = invoke_spec(store, faddr, stack, depth);
            &&& c.store.modules == store.modules
            &&& c.store.funcinstances == store.funcinstances
            &&& c.store.tables == store.tables
            &&& c.store.mems == store.mems
            &&& c.store.elems == store.elems
            &&& c.store.datas == store.datas
        }),
    decreases depth, 0int, 0int,
{
    reveal_with_fuel(invoke_spec, 1);
    reveal_with_fuel(run_spec, 1);
    if faddr < store.funcinstances.len() {
        match store.funcinstances[faddr as int] {
            FuncInstanceV::Host { .. } => {},
            FuncInstanceV::Internal { functype, module, code } => {
                let n = functype.input.len();
                if stack.len() >= n && depth > 0 {
                    let callee_locals = stack.subrange(stack.len() - n, stack.len() as int)
                        + defaults_of(code.locals);
                    lemma_run_frame(
                        store,
                        module,
                        functype.output.len(),
                        callee_locals,
                        code.body,
                        0,
                        Seq::empty(),
                        (depth - 1) as nat,
                    );
                    let sub = run_spec(
                        store,
                        module,
                        functype.output.len(),
                        callee_locals,
                        code.body,
                        0,
                        Seq::empty(),
                        (depth - 1) as nat,
                    );
                    assert(sub.store.modules == store.modules);
                    let c = invoke_spec(store, faddr, stack, depth);
                    assert(c.store == sub.store);
                }
            },
        }
    }
}

// ---------------------------------------------------------------------
// One-step unfoldings of the specification interpreter.  Each lemma
// opens `run_spec` exactly once, for one instruction shape, so that the
// interpreter loop's own proof stays small.
// ---------------------------------------------------------------------

/// A frame whose module instance address is dead stops at once.
proof fn lemma_run_badmod(
    store: StoreV,
    fmod: usize,
    farity: nat,
    locals: Seq<Val>,
    program: Seq<Instr>,
    ip: nat,
    stack: Seq<Val>,
    depth: nat,
)
    requires
        fmod >= store.modules.len(),
    ensures
        run_spec(store, fmod, farity, locals, program, ip, stack, depth) == (RunOut {
            store,
            locals,
            result: Result::Err(Error::UndefinedModuleInstance(fmod)),
        }),
{
    reveal_with_fuel(run_spec, 1);
}

/// Falling off the end of the program returns the whole stack.
proof fn lemma_run_end(
    store: StoreV,
    fmod: usize,
    farity: nat,
    locals: Seq<Val>,
    program: Seq<Instr>,
    ip: nat,
    stack: Seq<Val>,
    depth: nat,
)
    requires
        fmod < store.modules.len(),
        ip >= program.len(),
    ensures
        run_spec(store, fmod, farity, locals, program, ip, stack, depth) == (RunOut {
            store,
            locals,
            result: Result::Ok(stack),
        }),
{
    reveal_with_fuel(run_spec, 1);
}

/// One step of a pure stack operator.
proof fn lemma_step_stack_op(
    store: StoreV,
    fmod: usize,
    farity: nat,
    locals: Seq<Val>,
    program: Seq<Instr>,
    ip: nat,
    stack: Seq<Val>,
    depth: nat,
)
    requires
        fmod < store.modules.len(),
        ip < program.len(),
        is_stack_op(program[ip as int]),
    ensures
        match step_stack(program[ip as int], stack) {
            Result::Ok(s2) => run_spec(store, fmod, farity, locals, program, ip, stack, depth)
                == run_spec(store, fmod, farity, locals, program, ip + 1, s2, depth),
            Result::Err(e) => run_spec(store, fmod, farity, locals, program, ip, stack, depth)
                == (RunOut { store, locals, result: Result::Err(e) }),
        },
{
    reveal_with_fuel(run_spec, 1);
}

/// One step of `nop`.
proof fn lemma_step_nop(
    store: StoreV,
    fmod: usize,
    farity: nat,
    locals: Seq<Val>,
    program: Seq<Instr>,
    ip: nat,
    stack: Seq<Val>,
    depth: nat,
)
    requires
        fmod < store.modules.len(),
        ip < program.len(),
        program[ip as int] == Instr::Nop,
    ensures
        run_spec(store, fmod, farity, locals, program, ip, stack, depth) == run_spec(
            store,
            fmod,
            farity,
            locals,
            program,
            ip + 1,
            stack,
            depth,
        ),
{
    reveal_with_fuel(run_spec, 1);
}

/// One step of `unreachable`.
proof fn lemma_step_unreachable(
    store: StoreV,
    fmod: usize,
    farity: nat,
    locals: Seq<Val>,
    program: Seq<Instr>,
    ip: nat,
    stack: Seq<Val>,
    depth: nat,
)
    requires
        fmod < store.modules.len(),
        ip < program.len(),
        program[ip as int] == Instr::Unreachable,
    ensures
        run_spec(store, fmod, farity, locals, program, ip, stack, depth) == (RunOut {
            store,
            locals,
            result: Result::Err(Error::TrapUnreachable),
        }),
{
    reveal_with_fuel(run_spec, 1);
}

/// One step of `ref.func`.
proof fn lemma_step_ref_func(
    store: StoreV,
    fmod: usize,
    farity: nat,
    locals: Seq<Val>,
    program: Seq<Instr>,
    ip: nat,
    stack: Seq<Val>,
    depth: nat,
    fidx: usize,
)
    requires
        fmod < store.modules.len(),
        ip < program.len(),
        program[ip as int] == Instr::RefFunc(fidx),
    ensures
        ({
            let inst = store.modules[fmod as int];
            if fidx >= inst.funct.len() {
                run_spec(store, fmod, farity, locals, program, ip, stack, depth) == (RunOut {
                    store,
                    locals,
                    result: Result::Err(Error::UndefinedFunction(fidx)),
                })
            } else {
                run_spec(store, fmod, farity, locals, program, ip, stack, depth) == run_spec(
                    store,
                    fmod,
                    farity,
                    locals,
                    program,
                    ip + 1,
                    stack.push(Val::Ref(Ref::Func(inst.funct[fidx as int]))),
                    depth,
                )
            }
        }),
{
    reveal_with_fuel(run_spec, 1);
}

/// One step of `local.get`.
proof fn lemma_step_local_get(
    store: StoreV,
    fmod: usize,
    farity: nat,
    locals: Seq<Val>,
    program: Seq<Instr>,
    ip: nat,
    stack: Seq<Val>,
    depth: nat,
    i: usize,
)
    requires
        fmod < store.modules.len(),
        ip < program.len(),
        program[ip as int] == Instr::LocalGet(i),
    ensures
        ({
            if i >= locals.len() {
                run_spec(store, fmod, farity, locals, program, ip, stack, depth) == (RunOut {
                    store,
                    locals,
                    result: Result::Err(Error::UndefinedLocal(i)),
                })
            } else {
                run_spec(store, fmod, farity, locals, program, ip, stack, depth) == run_spec(
                    store,
                    fmod,
                    farity,
                    locals,
                    program,
                    ip + 1,
                    stack.push(locals[i as int]),
                    depth,
                )
            }
        }),
{
    reveal_with_fuel(run_spec, 1);
}

/// One step of `local.set`.
proof fn lemma_step_local_set(
    store: StoreV,
    fmod: usize,
    farity: nat,
    locals: Seq<Val>,
    program: Seq<Instr>,
    ip: nat,
    stack: Seq<Val>,
    depth: nat,
    i: usize,
)
    requires
        fmod < store.modules.len(),
        ip < program.len(),
        program[ip as int] == Instr::LocalSet(i),
    ensures
        match spop(stack) {
            Result::Ok((v, s)) => if i >= locals.len() {
                run_spec(store, fmod, farity, locals, program, ip, stack, depth) == (RunOut {
                    store,
                    locals,
                    result: Result::Err(Error::UndefinedLocal(i)),
                })
            } else {
                run_spec(store, fmod, farity, locals, program, ip, stack, depth) == run_spec(
                    store,
                    fmod,
                    farity,
                    locals.update(i as int, v),
                    program,
                    ip + 1,
                    s,
                    depth,
                )
            },
            Result::Err(e) => run_spec(store, fmod, farity, locals, program, ip, stack, depth)
                == (RunOut { store, locals, result: Result::Err(e) }),
        },
{
    reveal_with_fuel(run_spec, 1);
}

/// One step of `local.tee`.
proof fn lemma_step_local_tee(
    store: StoreV,
    fmod: usize,
    farity: nat,
    locals: Seq<Val>,
    program: Seq<Instr>,
    ip: nat,
    stack: Seq<Val>,
    depth: nat,
    i: usize,
)
    requires
        fmod < store.modules.len(),
        ip < program.len(),
        program[ip as int] == Instr::LocalTee(i),
    ensures
        ({
            if stack.len() == 0 {
                run_spec(store, fmod, farity, locals, program, ip, stack, depth) == (RunOut {
                    store,
                    locals,
                    result: Result::Err(Error::TypeMismatch),
                })
            } else if i >= locals.len() {
                run_spec(store, fmod, farity, locals, program, ip, stack, depth) == (RunOut {
                    store,
                    locals,
                    result: Result::Err(Error::UndefinedLocal(i)),
                })
            } else {
                run_spec(store, fmod, farity, locals, program, ip, stack, depth) == run_spec(
                    store,
                    fmod,
                    farity,
                    locals.update(i as int, stack.last()),
                    program,
                    ip + 1,
                    stack,
                    depth,
                )
            }
        }),
{
    reveal_with_fuel(run_spec, 1);
}

/// One step of `global.get`.
proof fn lemma_step_global_get(
    store: StoreV,
    fmod: usize,
    farity: nat,
    locals: Seq<Val>,
    program: Seq<Instr>,
    ip: nat,
    stack: Seq<Val>,
    depth: nat,
    i: usize,
)
    requires
        fmod < store.modules.len(),
        ip < program.len(),
        program[ip as int] == Instr::GlobalGet(i),
    ensures
        ({
            let inst = store.modules[fmod as int];
            if i >= inst.globals.len() {
                run_spec(store, fmod, farity, locals, program, ip, stack, depth) == (RunOut {
                    store,
                    locals,
                    result: Result::Err(Error::UndefinedGlobal(i)),
                })
            } else if inst.globals[i as int] >= store.globals.len() {
                run_spec(store, fmod, farity, locals, program, ip, stack, depth) == (RunOut {
                    store,
                    locals,
                    result: Result::Err(Error::UndefinedGlobal(inst.globals[i as int])),
                })
            } else {
                run_spec(store, fmod, farity, locals, program, ip, stack, depth) == run_spec(
                    store,
                    fmod,
                    farity,
                    locals,
                    program,
                    ip + 1,
                    stack.push(store.globals[inst.globals[i as int] as int].value),
                    depth,
                )
            }
        }),
{
    reveal_with_fuel(run_spec, 1);
}

/// One step of `global.set`.
proof fn lemma_step_global_set(
    store: StoreV,
    fmod: usize,
    farity: nat,
    locals: Seq<Val>,
    program: Seq<Instr>,
    ip: nat,
    stack: Seq<Val>,
    depth: nat,
    i: usize,
)
    requires
        fmod < store.modules.len(),
        ip < program.len(),
        program[ip as int] == Instr::GlobalSet(i),
    ensures
        match spop(stack) {
            Result::Err(e) => run_spec(store, fmod, farity, locals, program, ip, stack, depth)
                == (RunOut { store, locals, result: Result::Err(e) }),
            Result::Ok((v, s)) => ({
                let inst = store.modules[fmod as int];
                if i >= inst.globals.len() {
                    run_spec(store, fmod, farity, locals, program, ip, stack, depth) == (RunOut {
                        store,
                        locals,
                        result: Result::Err(Error::UndefinedGlobal(i)),
                    })
                } else if inst.globals[i as int] >= store.globals.len() {
                    run_spec(store, fmod, farity, locals, program, ip, stack, depth) == (RunOut {
                        store,
                        locals,
                        result: Result::Err(Error::UndefinedGlobal(inst.globals[i as int])),
                    })
                } else {
                    let ga = inst.globals[i as int];
                    let g = store.globals[ga as int];
                    if !(g.globaltype.mutable matches types::Mut::Var) {
                        run_spec(store, fmod, farity, locals, program, ip, stack, depth)
                            == (RunOut {
                            store,
                            locals,
                            result: Result::Err(Error::ImmutableGlobal),
                        })
                    } else if kind_of(v) != g.globaltype.val {
                        run_spec(store, fmod, farity, locals, program, ip, stack, depth)
                            == (RunOut { store, locals, result: Result::Err(Error::TypeMismatch) })
                    } else {
                        run_spec(store, fmod, farity, locals, program, ip, stack, depth)
                            == run_spec(
                            StoreV {
                                globals: store.globals.update(
                                    ga as int,
                                    Global { globaltype: g.globaltype, value: v },
                                ),
                                ..store
                            },
                            fmod,
                            farity,
                            locals,
                            program,
                            ip + 1,
                            s,
                            depth,
                        )
                    }
                }
            }),
        },
{
    reveal_with_fuel(run_spec, 1);
}

/// One step of `return`.
proof fn lemma_step_return(
    store: StoreV,
    fmod: usize,
    farity: nat,
    locals: Seq<Val>,
    program: Seq<Instr>,
    ip: nat,
    stack: Seq<Val>,
    depth: nat,
)
    requires
        fmod < store.modules.len(),
        ip < program.len(),
        program[ip as int] == Instr::Return,
    ensures
        ({
            if stack.len() < farity {
                run_spec(store, fmod, farity, locals, program, ip, stack, depth) == (RunOut {
                    store,
                    locals,
                    result: Result::Err(Error::AssertFailedEnoughVauesToReturn),
                })
            } else {
                run_spec(store, fmod, farity, locals, program, ip, stack, depth) == (RunOut {
                    store,
                    locals,
                    result: Result::Ok(stack.subrange(stack.len() - farity, stack.len() as int)),
                })
            }
        }),
{
    reveal_with_fuel(run_spec, 1);
}

/// One step of `call`.
proof fn lemma_step_call(
    store: StoreV,
    fmod: usize,
    farity: nat,
    locals: Seq<Val>,
    program: Seq<Instr>,
    ip: nat,
    stack: Seq<Val>,
    depth: nat,
    idx: usize,
)
    requires
        fmod < store.modules.len(),
        ip < program.len(),
        program[ip as int] == Instr::Call(idx),
    ensures
        ({
            let inst = store.modules[fmod as int];
            if idx >= inst.funct.len() {
                run_spec(store, fmod, farity, locals, program, ip, stack, depth) == (RunOut {
                    store,
                    locals,
                    result: Result::Err(Error::AssertFailedFuncInstanceExists),
                })
            } else {
                let c = invoke_spec(store, inst.funct[idx as int], stack, depth);
                match c.err {
                    Option::Some(e) => run_spec(store, fmod, farity, locals, program, ip, stack, depth)
                        == (RunOut { store: c.store, locals, result: Result::Err(e) }),
                    Option::None => run_spec(store, fmod, farity, locals, program, ip, stack, depth)
                        == run_spec(c.store, fmod, farity, locals, program, ip + 1, c.stack, depth),
                }
            }
        }),
{
    reveal_with_fuel(run_spec, 1);
}

/// One step of `call_indirect`.
proof fn lemma_step_call_indirect(
    store: StoreV,
    fmod: usize,
    farity: nat,
    locals: Seq<Val>,
    program: Seq<Instr>,
    ip: nat,
    stack: Seq<Val>,
    depth: nat,
    tidx: usize,
    tyidx: usize,
)
    requires
        fmod < store.modules.len(),
        ip < program.len(),
        program[ip as int] == Instr::CallIndirect(tidx, tyidx),
    ensures
        match spop_i32(stack) {
            Result::Err(e) => run_spec(store, fmod, farity, locals, program, ip, stack, depth)
                == (RunOut { store, locals, result: Result::Err(e) }),
            Result::Ok((sel, s)) => ({
                let inst = store.modules[fmod as int];
                match resolve_call_indirect(store, inst, sel, tidx, tyidx) {
                    Result::Err(e) => run_spec(store, fmod, farity, locals, program, ip, stack, depth)
                        == (RunOut { store, locals, result: Result::Err(e) }),
                    Result::Ok(faddr) => ({
                        let c = invoke_spec(store, faddr, s, depth);
                        match c.err {
                            Option::Some(e) => run_spec(
                                store,
                                fmod,
                                farity,
                                locals,
                                program,
                                ip,
                                stack,
                                depth,
                            ) == (RunOut { store: c.store, locals, result: Result::Err(e) }),
                            Option::None => run_spec(
                                store,
                                fmod,
                                farity,
                                locals,
                                program,
                                ip,
                                stack,
                                depth,
                            ) == run_spec(
                                c.store,
                                fmod,
                                farity,
                                locals,
                                program,
                                ip + 1,
                                c.stack,
                                depth,
                            ),
                        }
                    }),
                }
            }),
        },
{
    reveal_with_fuel(run_spec, 1);
}

// ---------------------------------------------------------------------
// The executable interpreter.
// ---------------------------------------------------------------------

/// How many nested calls an invocation may make before it traps with
/// `StackOverflow`.
pub const CALL_DEPTH_LIMIT: u64 = 1000;

/// How the outcome of `run` relates to the specification interpreter:
/// the final store, the final locals and the returned result are exactly
/// what `run_spec` says of the initial state.
pub open spec fn run_matches(
    store0: StoreV,
    frame0: FrameV,
    program: Seq<Instr>,
    depth: nat,
    store1: StoreV,
    frame1: FrameV,
    r: Result<Vec<Val>, Error>,
) -> bool {
    let out = run_spec(store0, frame0.module, frame0.arity, frame0.locals, program, 0, Seq::empty(), depth);
    &&& store1 == out.store
    &&& frame1.locals == out.locals
    &&& frame1.arity == frame0.arity
    &&& frame1.module == frame0.module
    &&& match r {
        Result::Ok(v) => out.result == Result::<Seq<Val>, Error>::Ok(v@),
        Result::Err(e) => out.result == Result::<Seq<Val>, Error>::Err(e),
    }
}

/// Evaluates `program` in the given frame against the store, to the
/// result values or the first trap or error, exactly as `run_spec`
/// states it, at call depth `CALL_DEPTH_LIMIT`.
pub fn run(store: &mut Store, frame: &mut Frame, program: &Vec<Instr>) -> (r: Result<
    Vec<Val>,
    Error,
>)
    ensures
        run_matches(
            old(store)@,
            old(frame)@,
            program@,
            CALL_DEPTH_LIMIT as nat,
            final(store)@,
            final(frame)@,
            r,
        ),
{
    run_depth(store, frame, program, CALL_DEPTH_LIMIT)
}

/// The depth-indexed interpreter behind `run`.
#[verifier::rlimit(100)]
fn run_depth(store: &mut Store, frame: &mut Frame, program: &Vec<Instr>, depth: u64) -> (r: Result<
    Vec<Val>,
    Error,
>)
    ensures
        run_matches(
            old(store)@,
            old(frame)@,
            program@,
            depth as nat,
            final(store)@,
            final(frame)@,
            r,
        ),
    decreases depth, 1int,
{
    let ghost store0 = store@;
    let ghost frame0 = frame@;
    let ghost out = run_spec(
        store@,
        frame.framestate.module,
        frame.arity as nat,
        frame@.locals,
        program@,
        0,
        Seq::empty(),
        depth as nat,
    );
    let fmod = frame.framestate.module;
    if fmod >= store.modules.len() {
        proof {
            lemma_run_badmod(
                store@,
                fmod,
                frame0.arity,
                frame@.locals,
                program@,
                0,
                Seq::empty(),
                depth as nat,
            );
        }
        return Result::Err(Error::UndefinedModuleInstance(fmod));
    }
    let mut stack: Vec<Val> = Vec::new();
    let mut ip: usize = 0;
    while ip < program.len()
        invariant
            ip <= program.len(),
            fmod == frame0.module,
            frame0 == old(frame)@,
            store0 == old(store)@,
            frame.framestate.module == fmod,
            frame.arity as nat == frame0.arity,
            store@.modules == store0.modules,
            fmod < store@.modules.len(),
            out == run_spec(
                store0,
                frame0.module,
                frame0.arity,
                frame0.locals,
                program@,
                0,
                Seq::empty(),
                depth as nat,
            ),
            out == run_spec(
                store@,
                fmod,
                frame0.arity,
                frame@.locals,
                program@,
                ip as nat,
                stack@,
                depth as nat,
            ),
        decreases program.len() - ip,
    {
        let op = program[ip];
        match op {
            Instr::Nop => {
                proof {
                    lemma_step_nop(
                        store@,
                        fmod,
                        frame0.arity,
                        frame@.locals,
                        program@,
                        ip as nat,
                        stack@,
                        depth as nat,
                    );
                }
            },
            Instr::Unreachable => {
                proof {
                    lemma_step_unreachable(
                        store@,
                        fmod,
                        frame0.arity,
                        frame@.locals,
                        program@,
                        ip as nat,
                        stack@,
                        depth as nat,
                    );
                }
                return Result::Err(Error::TrapUnreachable);
            },
            Instr::RefFunc(fidx) => {
                proof {
                    lemma_step_ref_func(
                        store@,
                        fmod,
                        frame0.arity,
                        frame@.locals,
                        program@,
                        ip as nat,
                        stack@,
                        depth as nat,
                        fidx,
                    );
                }
                if fidx >= store.modules[fmod].funct.len() {
                    return Result::Err(Error::UndefinedFunction(fidx));
                }
                let fa = store.modules[fmod].funct[fidx];
                stack.push(Val::Ref(Ref::Func(fa)));
            },
            Instr::LocalGet(i) => {
                proof {
                    lemma_step_local_get(
                        store@,
                        fmod,
                        frame0.arity,
                        frame@.locals,
                        program@,
                        ip as nat,
                        stack@,
                        depth as nat,
                        i,
                    );
                }
                if i >= frame.framestate.locals.len() {
                    return Result::Err(Error::UndefinedLocal(i));
                }
                stack.push(frame.framestate.locals[i]);
            },
            Instr::LocalSet(i) => {
                proof {
                    lemma_step_local_set(
                        store@,
                        fmod,
                        frame0.arity,
                        frame@.locals,
                        program@,
                        ip as nat,
                        stack@,
                        depth as nat,
                        i,
                    );
                }
                let v = match pop_value(&mut stack) {
                    Result::Ok(v) => v,
                    Result::Err(e) => return Result::Err(e),
                };
                if i >= frame.framestate.locals.len() {
                    return Result::Err(Error::UndefinedLocal(i));
                }
                frame.framestate.locals.set(i, v);
            },
            Instr::LocalTee(i) => {
                proof {
                    lemma_step_local_tee(
                        store@,
                        fmod,
                        frame0.arity,
                        frame@.locals,
                        program@,
                        ip as nat,
                        stack@,
                        depth as nat,
                        i,
                    );
                }
                if stack.len() == 0 {
                    return Result::Err(Error::TypeMismatch);
                }
                let v = stack[stack.len() - 1];
                if i >= frame.framestate.locals.len() {
                    return Result::Err(Error::UndefinedLocal(i));
                }
                frame.framestate.locals.set(i, v);
            },
            Instr::GlobalGet(i) => {
                proof {
                    lemma_step_global_get(
                        store@,
                        fmod,
                        frame0.arity,
                        frame@.locals,
                        program@,
                        ip as nat,
                        stack@,
                        depth as nat,
                        i,
                    );
                }
                if i >= store.modules[fmod].globals.len() {
                    return Result::Err(Error::UndefinedGlobal(i));
                }
                let ga = store.modules[fmod].globals[i];
                if ga >= store.globals.len() {
                    return Result::Err(Error::UndefinedGlobal(ga));
                }
                stack.push(store.globals[ga].value);
            },
            Instr::GlobalSet(i) => {
                proof {
                    lemma_step_global_set(
                        store@,
                        fmod,
                        frame0.arity,
                        frame@.locals,
                        program@,
                        ip as nat,
                        stack@,
                        depth as nat,
                        i,
                    );
                }
                let v = match pop_value(&mut stack) {
                    Result::Ok(v) => v,
                    Result::Err(e) => return Result::Err(e),
                };
                if i >= store.modules[fmod].globals.len() {
                    return Result::Err(Error::UndefinedGlobal(i));
                }
                let ga = store.modules[fmod].globals[i];
                if ga >= store.globals.len() {
                    return Result::Err(Error::UndefinedGlobal(ga));
                }
                let g = store.globals[ga];
                match g.globaltype.mutable {
                    types::Mut::Const => {
                        return Result::Err(Error::ImmutableGlobal);
                    },
                    types::Mut::Var => {},
                }
                if v.kind() != g.globaltype.val {
                    return Result::Err(Error::TypeMismatch);
                }
                store.globals.set(ga, Global { globaltype: g.globaltype, value: v });
            },
            Instr::Return => {
                proof {
                    lemma_step_return(
                        store@,
                        fmod,
                        frame0.arity,
                        frame@.locals,
                        program@,
                        ip as nat,
                        stack@,
                        depth as nat,
                    );
                }
                if stack.len() < frame.arity {
                    return Result::Err(Error::AssertFailedEnoughVauesToReturn);
                }
                let start = stack.len() - frame.arity;
                let mut values: Vec<Val> = Vec::new();
                let mut j: usize = 0;
                while j < frame.arity
                    invariant
                        j <= frame.arity,
                        frame.arity <= stack@.len(),
                        start == stack@.len() - frame.arity,
                        stack@.len() <= usize::MAX,
                        values@ == stack@.subrange(start as int, start + j),
                    decreases frame.arity - j,
                {
                    values.push(stack[start + j]);
                    proof {
                        assert(values@ =~= stack@.subrange(start as int, start + j + 1));
                    }
                    j += 1;
                }
                return Result::Ok(values);
            },
            Instr::Call(idx) => {
                proof {
                    lemma_step_call(
                        store@,
                        fmod,
                        frame0.arity,
                        frame@.locals,
                        program@,
                        ip as nat,
                        stack@,
                        depth as nat,
                        idx,
                    );
                }
                if idx >= store.modules[fmod].funct.len() {
                    return Result::Err(Error::AssertFailedFuncInstanceExists);
                }
                let faddr = store.modules[fmod].funct[idx];
                proof {
                    lemma_invoke_frame(store@, faddr, stack@, depth as nat);
                }
                match call_function(store, faddr, &mut stack, depth) {
                    Result::Ok(()) => {},
                    Result::Err(e) => return Result::Err(e),
                }
            },
            Instr::CallIndirect(tidx, tyidx) => {
                proof {
                    lemma_step_call_indirect(
                        store@,
                        fmod,
                        frame0.arity,
                        frame@.locals,
                        program@,
                        ip as nat,
                        stack@,
                        depth as nat,
                        tidx,
                        tyidx,
                    );
                }
                let sel = match pop_i32(&mut stack) {
                    Result::Ok(v) => v,
                    Result::Err(e) => return Result::Err(e),
                };
                if tidx >= store.modules[fmod].tables.len() {
                    return Result::Err(Error::UndefinedTable(tidx));
                }
                let ta = store.modules[fmod].tables[tidx];
                if ta >= store.tables.len() {
                    return Result::Err(Error::UndefinedTable(ta));
                }
                if sel as usize >= store.tables[ta].elem.len() {
                    return Result::Err(Error::OutOfBoundTableAccess);
                }
                let rf = store.tables[ta].elem[sel as usize];
                let faddr = match rf {
                    Ref::Null(_) => {
                        return Result::Err(Error::UninitializedElement);
                    },
                    Ref::Extern(_) => {
                        return Result::Err(Error::TypeMismatch);
                    },
                    Ref::Func(fa) => fa,
                };
                if faddr >= store.funcinstances.len() {
                    return Result::Err(Error::UndefinedFunction(faddr));
                }
                if tyidx >= store.modules[fmod].types.len() {
                    return Result::Err(Error::TypeMismatch);
                }
                let tyok = {
                    let expected = &store.modules[fmod].types[tyidx];
                    let actual = match &store.funcinstances[faddr] {
                        FuncInstance::Internal(f) => &f.functype,
                        FuncInstance::Host(f) => &f.functype,
                    };
                    expected.type_eq(actual)
                };
                if !tyok {
                    return Result::Err(Error::IndirectCallTypeMismatch);
                }
                proof {
                    lemma_invoke_frame(store@, faddr, stack@, depth as nat);
                }
                match call_function(store, faddr, &mut stack, depth) {
                    Result::Ok(()) => {},
                    Result::Err(e) => return Result::Err(e),
                }
            },
            _ => {
                proof {
                    lemma_step_stack_op(
                        store@,
                        fmod,
                        frame0.arity,
                        frame@.locals,
                        program@,
                        ip as nat,
                        stack@,
                        depth as nat,
                    );
                }
                match step_stack_exec(op, &mut stack) {
                    Result::Ok(()) => {},
                    Result::Err(e) => return Result::Err(e),
                }
            },
        }
        ip += 1;
    }
    proof {
        lemma_run_end(
            store@,
            fmod,
            frame0.arity,
            frame@.locals,
            program@,
            ip as nat,
            stack@,
            depth as nat,
        );
    }
    Result::Ok(stack)
}

/// Calls the function at `faddr`, popping its arguments off `stack` and
/// pushing its results, exactly as `invoke_spec` states it.
#[verifier::rlimit(100)]
pub(crate) fn call_function(store: &mut Store, faddr: usize, stack: &mut Vec<Val>, depth: u64) -> (r: Result<
    (),
    Error,
>)
    ensures
        ({
            let c = invoke_spec(old(store)@, faddr, old(stack)@, depth as nat);
            &&& final(store)@ == c.store
            &&& match r {
                Result::Ok(()) => c.err matches Option::None && final(stack)@ == c.stack,
                Result::Err(e) => c.err == Option::Some(e),
            }
        }),
    decreases depth, 0int,
{
    proof {
        reveal_with_fuel(invoke_spec, 1);
        reveal_with_fuel(run_spec, 1);
    }
    if faddr >= store.funcinstances.len() {
        return Result::Err(Error::UndefinedFunction(faddr));
    }
    let (n_in, n_out, cmod, body, decl_locals) = match &store.funcinstances[faddr] {
        FuncInstance::Host(_) => {
            return Result::Err(Error::HostFunctionNotCallable);
        },
        FuncInstance::Internal(f) => (
            f.functype.input.len(),
            f.functype.output.len(),
            f.module,
            copy_instrs(&f.code.body),
            types::values_copy(&f.code.locals),
        ),
    };
    if stack.len() < n_in {
        return Result::Err(Error::AssertFailedEnoughStackValuesForFunctionCall);
    }
    if depth == 0 {
        return Result::Err(Error::StackOverflow);
    }
    let ghost stack0 = stack@;
    let start = stack.len() - n_in;
    let mut locs: Vec<Val> = Vec::new();
    let mut j: usize = 0;
    while j < n_in
        invariant
            j <= n_in,
            n_in <= stack@.len(),
            stack@ == stack0,
            start + n_in == stack@.len(),
            stack@.len() <= usize::MAX,
            locs@ == stack@.subrange(start as int, start + j),
        decreases n_in - j,
    {
        locs.push(stack[start + j]);
        proof {
            assert(locs@ =~= stack@.subrange(start as int, start + j + 1));
        }
        j += 1;
    }
    stack.truncate(start);
    let ghost args = stack0.subrange(start as int, stack0.len() as int);
    let mut k: usize = 0;
    while k < decl_locals.len()
        invariant
            k <= decl_locals@.len(),
            locs@ == args + defaults_of(decl_locals@.take(k as int)),
        decreases decl_locals.len() - k,
    {
        locs.push(Val::default_value(decl_locals[k]));
        proof {
            assert(defaults_of(decl_locals@.take(k + 1)) =~= defaults_of(
                decl_locals@.take(k as int),
            ).push(default_of(decl_locals@[k as int])));
            assert(locs@ =~= args + defaults_of(decl_locals@.take(k + 1)));
        }
        k += 1;
    }
    proof {
        assert(decl_locals@.take(decl_locals@.len() as int) =~= decl_locals@);
    }
    let mut callee = Frame { arity: n_out, framestate: FrameState { locals: locs, module: cmod } };
    let res = match run_depth(store, &mut callee, &body, depth - 1) {
        Result::Ok(v) => v,
        Result::Err(e) => return Result::Err(e),
    };
    if res.len() != n_out {
        return Result::Err(Error::TypeMismatch);
    }
    let ghost kept = stack0.take(start as int);
    let mut m: usize = 0;
    while m < res.len()
        invariant
            m <= res@.len(),
            stack@ == kept + res@.take(m as int),
        decreases res.len() - m,
    {
        stack.push(res[m]);
        proof {
            assert(stack@ =~= kept + res@.take(m + 1));
        }
        m += 1;
    }
    proof {
        assert(res@.take(res@.len() as int) =~= res@);
    }
    Result::Ok(())
}

// ---------------------------------------------------------------------
// Laws of the interpreter.
// ---------------------------------------------------------------------

/// Law: execution is deterministic.  The final store, the final locals
/// and the result are a function of the initial store, frame, program and
/// call depth; two runs from equal states agree in all three.
pub proof fn lemma_run_deterministic(
    store: StoreV,
    fmod: usize,
    farity: nat,
    locals: Seq<Val>,
    program: Seq<Instr>,
    depth: nat,
    out1: RunOut,
    out2: RunOut,
)
    requires
        out1 == run_spec(store, fmod, farity, locals, program, 0, Seq::empty(), depth),
        out2 == run_spec(store, fmod, farity, locals, program, 0, Seq::empty(), depth),
    ensures
        out1.result == out2.result,
        out1.store == out2.store,
        out1.locals == out2.locals,
{
}

/// Law: a failing `call_indirect` is atomic.  When resolution of the
/// popped selector fails — out of bounds, a null or foreign element, or
/// the type check — the invocation stops with exactly that trap, the
/// store and the locals are untouched, and no frame is entered: the
/// outcome does not depend on the remaining call depth.
pub proof fn lemma_call_indirect_trap_atomic(
    store: StoreV,
    fmod: usize,
    farity: nat,
    locals: Seq<Val>,
    program: Seq<Instr>,
    ip: nat,
    stack: Seq<Val>,
    d1: nat,
    d2: nat,
    tidx: usize,
    tyidx: usize,
    e: Error,
)
    requires
        fmod < store.modules.len(),
        ip < program.len(),
        program[ip as int] == Instr::CallIndirect(tidx, tyidx),
        match spop_i32(stack) {
            Result::Ok((sel, s)) => resolve_call_indirect(
                store,
                store.modules[fmod as int],
                sel,
                tidx,
                tyidx,
            ) == Result::<usize, Error>::Err(e),
            Result::Err(_) => false,
        },
    ensures
        run_spec(store, fmod, farity, locals, program, ip, stack, d1) == (RunOut {
            store,
            locals,
            result: Result::Err(e),
        }),
        run_spec(store, fmod, farity, locals, program, ip, stack, d1) == run_spec(
            store,
            fmod,
            farity,
            locals,
            program,
            ip,
            stack,
            d2,
        ),
{
    reveal_with_fuel(run_spec, 1);
}

} // verus!
