use wasmic::err::Error;
use wasmic::instr::Instr;
use wasmic::modules::{Export, ExportDesc, Func, Module, Table as ModTable};
use wasmic::runtime::{Frame, FrameState, ModuleInstance, Num, Ref, Store, Val};
use wasmic::types::{Function, Limits, Number, Table as TableType, Value};
use wasmic::vm::run;
use wasmic::embedding::Instanciable;

fn empty_module_store() -> Store {
    let mut store = Store::new();
    store.modules.push(ModuleInstance::new());
    store
}

#[test]
fn add_two() -> Result<(), Error> {
    let mut store = Store::new();
    store.modules.push(ModuleInstance::new());
    let mut frame = Frame::new(0);

    let res = run(
        &mut store,
        &mut frame,
        &vec![Instr::I32Const(1), Instr::I32Const(1), Instr::I32Add],
    )?;

    assert_eq!(res.len(), 1);
    assert_eq!(res[0], Val::Num(Num::I32(2)));
    Ok(())
}

#[test]
fn scenario_signed_division_trap() {
    // i32.const -2147483648; i32.const -1; i32.div_s
    let mut store = empty_module_store();
    let mut frame = Frame::new(0);
    let res = run(
        &mut store,
        &mut frame,
        &vec![
            Instr::I32Const(0x8000_0000),
            Instr::I32Const(0xffff_ffff),
            Instr::I32DivS,
        ],
    );
    assert_eq!(res, Err(Error::IntegerOverflow));
}

#[test]
fn scenario_shift_masking() {
    // i32.const 1; i32.const 33; i32.shl  ==> 2 (shift reduced modulo 32)
    let mut store = empty_module_store();
    let mut frame = Frame::new(0);
    let res = run(
        &mut store,
        &mut frame,
        &vec![Instr::I32Const(1), Instr::I32Const(33), Instr::I32Shl],
    )
    .unwrap();
    assert_eq!(res, vec![Val::Num(Num::I32(2))]);
}

#[test]
fn division_by_zero_traps() {
    let mut store = empty_module_store();
    let mut frame = Frame::new(0);
    let res = run(
        &mut store,
        &mut frame,
        &vec![Instr::I32Const(7), Instr::I32Const(0), Instr::I32DivU],
    );
    assert_eq!(res, Err(Error::IntegerDivideByZero));
    let res64 = run(
        &mut store,
        &mut frame,
        &vec![Instr::I64Const(7), Instr::I64Const(0), Instr::I64RemU],
    );
    assert_eq!(res64, Err(Error::IntegerDivideByZero));
}

#[test]
fn wrapping_arithmetic() {
    let mut store = empty_module_store();
    let mut frame = Frame::new(0);
    let res = run(
        &mut store,
        &mut frame,
        &vec![Instr::I32Const(0xffff_ffff), Instr::I32Const(1), Instr::I32Add],
    )
    .unwrap();
    assert_eq!(res, vec![Val::Num(Num::I32(0))]);
    let res = run(
        &mut store,
        &mut frame,
        &vec![Instr::I32Const(0), Instr::I32Const(1), Instr::I32Sub],
    )
    .unwrap();
    assert_eq!(res, vec![Val::Num(Num::I32(0xffff_ffff))]);
    let res = run(
        &mut store,
        &mut frame,
        &vec![Instr::I32Const(0x10000), Instr::I32Const(0x10000), Instr::I32Mul],
    )
    .unwrap();
    assert_eq!(res, vec![Val::Num(Num::I32(0))]);
    let res = run(
        &mut store,
        &mut frame,
        &vec![
            Instr::I64Const(u64::MAX),
            Instr::I64Const(2),
            Instr::I64Add,
        ],
    )
    .unwrap();
    assert_eq!(res, vec![Val::Num(Num::I64(1))]);
}

#[test]
fn counting_operators() {
    let mut store = empty_module_store();
    let mut frame = Frame::new(0);
    let res = run(
        &mut store,
        &mut frame,
        &vec![Instr::I32Const(0), Instr::I32Clz],
    )
    .unwrap();
    assert_eq!(res, vec![Val::Num(Num::I32(32))]);
    let res = run(
        &mut store,
        &mut frame,
        &vec![Instr::I32Const(1), Instr::I32Clz],
    )
    .unwrap();
    assert_eq!(res, vec![Val::Num(Num::I32(31))]);
    let res = run(
        &mut store,
        &mut frame,
        &vec![Instr::I32Const(8), Instr::I32Ctz],
    )
    .unwrap();
    assert_eq!(res, vec![Val::Num(Num::I32(3))]);
    let res = run(
        &mut store,
        &mut frame,
        &vec![Instr::I32Const(0xff), Instr::I32PopCnt],
    )
    .unwrap();
    assert_eq!(res, vec![Val::Num(Num::I32(8))]);
    let res = run(
        &mut store,
        &mut frame,
        &vec![Instr::I64Const(0), Instr::I64Clz],
    )
    .unwrap();
    assert_eq!(res, vec![Val::Num(Num::I64(64))]);
}

#[test]
fn relational_operators() {
    let mut store = empty_module_store();
    let mut frame = Frame::new(0);
    // -1 (as bits) is less than 1 signed, but greater unsigned.
    let res = run(
        &mut store,
        &mut frame,
        &vec![
            Instr::I32Const(0xffff_ffff),
            Instr::I32Const(1),
            Instr::I32LtS,
        ],
    )
    .unwrap();
    assert_eq!(res, vec![Val::Num(Num::I32(1))]);
    let res = run(
        &mut store,
        &mut frame,
        &vec![
            Instr::I32Const(0xffff_ffff),
            Instr::I32Const(1),
            Instr::I32LtU,
        ],
    )
    .unwrap();
    assert_eq!(res, vec![Val::Num(Num::I32(0))]);
    let res = run(
        &mut store,
        &mut frame,
        &vec![Instr::I32Const(0), Instr::I32Eqz],
    )
    .unwrap();
    assert_eq!(res, vec![Val::Num(Num::I32(1))]);
}

#[test]
fn locals_and_unreachable() {
    let mut store = empty_module_store();
    let mut frame = Frame {
        arity: 0,
        framestate: FrameState { locals: vec![Val::Num(Num::I32(10))], module: 0 },
    };
    let res = run(
        &mut store,
        &mut frame,
        &vec![Instr::LocalGet(0), Instr::I32Const(5), Instr::I32Add, Instr::LocalSet(0)],
    )
    .unwrap();
    assert_eq!(res, vec![]);
    assert_eq!(frame.framestate.locals[0], Val::Num(Num::I32(15)));

    let res = run(&mut store, &mut frame, &vec![Instr::Unreachable]);
    assert_eq!(res, Err(Error::TrapUnreachable));
}

fn add_two_module() -> Module {
    Module {
        types: vec![Function { input: vec![], output: vec![Value::Num(Number::I32)] }],
        funcs: vec![Func {
            functype: 0,
            locals: vec![],
            body: vec![Instr::I32Const(1), Instr::I32Const(1), Instr::I32Add],
        }],
        tables: vec![],
        mems: vec![],
        globals: vec![],
        elems: vec![],
        datas: vec![],
        start: None,
        imports: vec![],
        exports: vec![Export { name: "add_two".to_string(), desc: ExportDesc::Func(0) }],
    }
}

#[test]
fn scenario_add_two_invoked_through_module() {
    let mut store = Store::new();
    let addr = ModuleInstance::instanciate(&mut store, &add_two_module(), vec![]).unwrap();
    assert_eq!(addr, 0);
    let ext = store.modules[0].export(&"add_two".to_string()).unwrap();
    let faddr = match ext {
        wasmic::runtime::ExternalVal::Fun(a) => a,
        _ => panic!("not a function export"),
    };
    let res = store.invoke(faddr, vec![]).unwrap();
    assert_eq!(res, vec![Val::Num(Num::I32(2))]);
}

#[test]
fn scenario_export_lookup_failure() {
    let mut store = Store::new();
    ModuleInstance::instanciate(&mut store, &add_two_module(), vec![]).unwrap();
    let r = store.modules[0].export(&"does_not_exist".to_string());
    assert!(matches!(r, Err(Error::ModuleInstanceExportNotFound(_))));
}

fn indirect_module() -> Module {
    // type 0: (i32) -> (i32); type 1: (i64) -> (i64); type 2: () -> (i32)
    Module {
        types: vec![
            Function {
                input: vec![Value::Num(Number::I32)],
                output: vec![Value::Num(Number::I32)],
            },
            Function {
                input: vec![Value::Num(Number::I64)],
                output: vec![Value::Num(Number::I64)],
            },
            Function { input: vec![], output: vec![Value::Num(Number::I32)] },
        ],
        funcs: vec![
            // f: returns its argument
            Func { functype: 0, locals: vec![], body: vec![Instr::LocalGet(0)] },
            // h: pushes an argument and the selector, then calls through the table
            Func {
                functype: 2,
                locals: vec![],
                body: vec![Instr::I32Const(42), Instr::I32Const(0), Instr::CallIndirect(0, 0)],
            },
            // h2: same selector, but declares the 64-bit type
            Func {
                functype: 2,
                locals: vec![],
                body: vec![Instr::I32Const(42), Instr::I32Const(0), Instr::CallIndirect(0, 1)],
            },
        ],
        tables: vec![ModTable {
            tabletype: TableType { limits: Limits { min: 1, max: Some(1) } },
        }],
        mems: vec![],
        globals: vec![],
        elems: vec![],
        datas: vec![],
        start: None,
        imports: vec![],
        exports: vec![],
    }
}

#[test]
fn scenario_indirect_call_type_check() {
    let mut store = Store::new();
    ModuleInstance::instanciate(&mut store, &indirect_module(), vec![]).unwrap();
    let f_addr = store.modules[0].funct[0];
    let h_addr = store.modules[0].funct[1];
    let h2_addr = store.modules[0].funct[2];
    let t_addr = store.modules[0].tables[0];
    // Wire f into the table, then call indirectly with the matching type.
    store.table_write(t_addr, 0, Ref::Func(f_addr)).unwrap();
    let res = store.invoke(h_addr, vec![]).unwrap();
    assert_eq!(res, vec![Val::Num(Num::I32(42))]);
    // The same call declared at type (i64) -> (i64) must trap.
    let res = store.invoke(h2_addr, vec![]);
    assert_eq!(res, Err(Error::IndirectCallTypeMismatch));
}

#[test]
fn indirect_call_on_null_element_traps() {
    let mut store = Store::new();
    ModuleInstance::instanciate(&mut store, &indirect_module(), vec![]).unwrap();
    let h_addr = store.modules[0].funct[1];
    // The table entry is still the null reference.
    let res = store.invoke(h_addr, vec![]);
    assert_eq!(res, Err(Error::UninitializedElement));
}

#[test]
fn unbounded_recursion_overflows_the_stack() {
    let module = Module {
        types: vec![Function { input: vec![], output: vec![] }],
        funcs: vec![Func { functype: 0, locals: vec![], body: vec![Instr::Call(0)] }],
        tables: vec![],
        mems: vec![],
        globals: vec![],
        elems: vec![],
        datas: vec![],
        start: None,
        imports: vec![],
        exports: vec![],
    };
    let mut store = Store::new();
    ModuleInstance::instanciate(&mut store, &module, vec![]).unwrap();
    let f = store.modules[0].funct[0];
    let res = store.invoke(f, vec![]);
    assert_eq!(res, Err(Error::StackOverflow));
}

#[test]
fn invoke_checks_arguments() {
    let mut store = Store::new();
    ModuleInstance::instanciate(&mut store, &indirect_module(), vec![]).unwrap();
    let f_addr = store.modules[0].funct[0];
    // f takes one i32: wrong arity and wrong kind are both rejected.
    assert_eq!(store.invoke(f_addr, vec![]), Err(Error::TypeMismatch));
    assert_eq!(
        store.invoke(f_addr, vec![Val::Num(Num::I64(1))]),
        Err(Error::TypeMismatch)
    );
    assert_eq!(
        store.invoke(f_addr, vec![Val::Num(Num::I32(7))]),
        Ok(vec![Val::Num(Num::I32(7))])
    );
    assert_eq!(store.invoke(999, vec![]), Err(Error::UndefinedFunction(999)));
}

#[test]
fn determinism_of_two_identical_runs() {
    // Two executions with identical store and arguments produce equal
    // results and equal observable state.
    let mk = || {
        let mut store = Store::new();
        ModuleInstance::instanciate(&mut store, &add_two_module(), vec![]).unwrap();
        store
    };
    let mut s1 = mk();
    let mut s2 = mk();
    let f1 = s1.modules[0].funct[0];
    let f2 = s2.modules[0].funct[0];
    let r1 = s1.invoke(f1, vec![]);
    let r2 = s2.invoke(f2, vec![]);
    assert_eq!(r1, r2);
    assert_eq!(s1.funcinstances.len(), s2.funcinstances.len());
    assert_eq!(s1.globals.len(), s2.globals.len());
}

#[test]
fn trap_atomicity_of_call_indirect() {
    // A failing call_indirect leaves the selector popped but enters no
    // frame: the store's mutable state is exactly as before the call.
    let mut module = indirect_module();
    module.globals.push(wasmic::modules::Global {
        globaltype: wasmic::types::Global {
            mutable: wasmic::types::Mut::Var,
            val: Value::Num(Number::I32),
        },
        init: vec![Instr::I32Const(5)],
    });
    let mut store = Store::new();
    ModuleInstance::instanciate(&mut store, &module, vec![]).unwrap();
    let h2_addr = store.modules[0].funct[2];
    let g_addr = store.modules[0].globals[0];
    let f_addr = store.modules[0].funct[0];
    let t_addr = store.modules[0].tables[0];
    store.table_write(t_addr, 0, Ref::Func(f_addr)).unwrap();
    let before = store.global_read(g_addr).unwrap();
    let res = store.invoke(h2_addr, vec![]);
    assert_eq!(res, Err(Error::IndirectCallTypeMismatch));
    assert_eq!(store.global_read(g_addr).unwrap(), before);
}

#[test]
fn globals_through_instructions() {
    let module = Module {
        types: vec![Function { input: vec![], output: vec![Value::Num(Number::I32)] }],
        funcs: vec![Func {
            functype: 0,
            locals: vec![],
            body: vec![
                Instr::GlobalGet(0),
                Instr::I32Const(1),
                Instr::I32Add,
                Instr::GlobalSet(0),
                Instr::GlobalGet(0),
            ],
        }],
        tables: vec![],
        mems: vec![],
        globals: vec![wasmic::modules::Global {
            globaltype: wasmic::types::Global {
                mutable: wasmic::types::Mut::Var,
                val: Value::Num(Number::I32),
            },
            init: vec![Instr::I32Const(41)],
        }],
        elems: vec![],
        datas: vec![],
        start: None,
        imports: vec![],
        exports: vec![],
    };
    let mut store = Store::new();
    ModuleInstance::instanciate(&mut store, &module, vec![]).unwrap();
    let f = store.modules[0].funct[0];
    let res = store.invoke(f, vec![]).unwrap();
    assert_eq!(res, vec![Val::Num(Num::I32(42))]);
    // The mutation is committed in the store.
    let g = store.modules[0].globals[0];
    assert_eq!(store.global_read(g).unwrap(), Val::Num(Num::I32(42)));
}

#[test]
fn bitwise_and_rotation_instructions() {
    let mut store = empty_module_store();
    let mut frame = Frame::new(0);
    let res = run(
        &mut store,
        &mut frame,
        &vec![Instr::I32Const(0b1100), Instr::I32Const(0b1010), Instr::I32And],
    )
    .unwrap();
    assert_eq!(res, vec![Val::Num(Num::I32(0b1000))]);
    let res = run(
        &mut store,
        &mut frame,
        &vec![Instr::I32Const(0b1100), Instr::I32Const(0b1010), Instr::I32Xor],
    )
    .unwrap();
    assert_eq!(res, vec![Val::Num(Num::I32(0b0110))]);
    let res = run(
        &mut store,
        &mut frame,
        &vec![Instr::I32Const(0), Instr::I32Not],
    )
    .unwrap();
    assert_eq!(res, vec![Val::Num(Num::I32(0xffff_ffff))]);
    let res = run(
        &mut store,
        &mut frame,
        &vec![Instr::I32Const(0x8000_0001), Instr::I32Const(1), Instr::I32Rotl],
    )
    .unwrap();
    assert_eq!(res, vec![Val::Num(Num::I32(3))]);
    let res = run(
        &mut store,
        &mut frame,
        &vec![
            Instr::I64Const(1),
            Instr::I64Const(1),
            Instr::I64Rotr,
        ],
    )
    .unwrap();
    assert_eq!(res, vec![Val::Num(Num::I64(0x8000_0000_0000_0000))]);
}

#[test]
fn local_tee_keeps_the_value_on_the_stack() {
    let mut store = empty_module_store();
    let mut frame = Frame {
        arity: 0,
        framestate: FrameState { locals: vec![Val::Num(Num::I32(0))], module: 0 },
    };
    let res = run(
        &mut store,
        &mut frame,
        &vec![Instr::I32Const(6), Instr::LocalTee(0)],
    )
    .unwrap();
    assert_eq!(res, vec![Val::Num(Num::I32(6))]);
    assert_eq!(frame.framestate.locals[0], Val::Num(Num::I32(6)));
}

#[test]
fn reference_instructions() {
    let mut store = empty_module_store();
    store.modules[0].funct.push(4);
    let mut frame = Frame::new(0);
    let res = run(
        &mut store,
        &mut frame,
        &vec![Instr::RefNull(wasmic::types::Ref::Extern), Instr::RefIsNull],
    )
    .unwrap();
    assert_eq!(res, vec![Val::Num(Num::I32(1))]);
    let res = run(
        &mut store,
        &mut frame,
        &vec![Instr::RefFunc(0), Instr::RefIsNull],
    )
    .unwrap();
    assert_eq!(res, vec![Val::Num(Num::I32(0))]);
    let res = run(&mut store, &mut frame, &vec![Instr::RefFunc(0)]).unwrap();
    assert_eq!(res, vec![Val::Ref(Ref::Func(4))]);
}

#[test]
fn explicit_return_takes_the_arity() {
    let mut store = empty_module_store();
    let mut frame = Frame { arity: 1, framestate: FrameState { locals: vec![], module: 0 } };
    let res = run(
        &mut store,
        &mut frame,
        &vec![
            Instr::I32Const(1),
            Instr::I32Const(2),
            Instr::Return,
            Instr::Unreachable,
        ],
    )
    .unwrap();
    // Return yields the frame's arity of values and skips the rest.
    assert_eq!(res, vec![Val::Num(Num::I32(2))]);
}

#[test]
fn passive_segments_populate_the_store() {
    let module = Module {
        types: vec![Function { input: vec![], output: vec![] }],
        funcs: vec![Func { functype: 0, locals: vec![], body: vec![] }],
        tables: vec![],
        mems: vec![],
        globals: vec![],
        elems: vec![wasmic::modules::Element {
            elemtype: wasmic::types::Ref::Func,
            init: vec![vec![Instr::RefFunc(0)], vec![Instr::RefNull(wasmic::types::Ref::Func)]],
            mode: wasmic::modules::ElemMode::Passive,
        }],
        datas: vec![wasmic::modules::Data {
            init: vec![1, 2, 3],
            mode: wasmic::modules::DataMode::Passive,
        }],
        start: None,
        imports: vec![],
        exports: vec![],
    };
    let mut store = Store::new();
    let addr = ModuleInstance::instanciate(&mut store, &module, vec![]).unwrap();
    let e = store.modules[addr].elems[0];
    let d = store.modules[addr].datas[0];
    let f = store.modules[addr].funct[0];
    assert_eq!(store.elems[e].elem, vec![Ref::Func(f), Ref::Null(wasmic::types::Ref::Func)]);
    assert_eq!(store.datas[d].data, vec![1, 2, 3]);
}

#[test]
fn internal_consistency_errors_are_reported() {
    let mut store = empty_module_store();
    // Return with fewer values on the stack than the frame's arity.
    let mut frame = Frame { arity: 2, framestate: FrameState { locals: vec![], module: 0 } };
    let res = run(&mut store, &mut frame, &vec![Instr::I32Const(1), Instr::Return]);
    assert_eq!(res, Err(Error::AssertFailedEnoughVauesToReturn));
    // A call through a dead function index.
    let mut frame = Frame::new(0);
    let res = run(&mut store, &mut frame, &vec![Instr::Call(0)]);
    assert_eq!(res, Err(Error::AssertFailedFuncInstanceExists));
    // A local index out of range.
    let res = run(&mut store, &mut frame, &vec![Instr::LocalGet(0)]);
    assert_eq!(res, Err(Error::UndefinedLocal(0)));
    // A frame whose module instance address is dead.
    let mut bad = Frame::new(9);
    let res = run(&mut store, &mut bad, &vec![Instr::Nop]);
    assert_eq!(res, Err(Error::UndefinedModuleInstance(9)));
    // Popping from an empty stack is an ill-typed program.
    let mut frame = Frame::new(0);
    let res = run(&mut store, &mut frame, &vec![Instr::I32Add]);
    assert_eq!(res, Err(Error::TypeMismatch));
}
