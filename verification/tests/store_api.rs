use wasmic::err::Error;
use wasmic::instr::Instr;
use wasmic::modules::{Func, HostFunc, Mem as ModMem, Module};
use wasmic::runtime::{ExternalVal, ModuleInstance, Num, Ref, Store, Val};
use wasmic::types::{Function, Global as GlobalType, Limits, Mem as MemType, Mut, Number, Table as TableType, Value};
use wasmic::embedding::Instanciable;

#[test]
fn scenario_memory_grow_and_bounds() {
    // Instantiate with one memory of min = 1 page.
    let module = Module {
        types: vec![],
        funcs: vec![],
        tables: vec![],
        mems: vec![ModMem { memtype: MemType { limits: Limits { min: 1, max: Some(4) } } }],
        globals: vec![],
        elems: vec![],
        datas: vec![],
        start: None,
        imports: vec![],
        exports: vec![],
    };
    let mut store = Store::new();
    ModuleInstance::instanciate(&mut store, &module, vec![]).unwrap();
    let m = store.modules[0].mems[0];
    // Store a byte at offset 65535: fine.
    assert_eq!(store.mem_write(m, 65535, 7), Ok(()));
    // Offset 65536 is one past the end.
    assert_eq!(store.mem_write(m, 65536, 7), Err(Error::OutOfBoundMemoryAccess));
    // Grow by one page: returns the old size, 1.
    assert_eq!(store.mem_grow(m, 1), Ok(1));
    assert_eq!(store.mems[m].data.len(), 131072);
    // Now offset 65536 is in bounds.
    assert_eq!(store.mem_write(m, 65536, 9), Ok(()));
    assert_eq!(store.mem_read(m, 65536), Ok(9));
    assert_eq!(store.mem_read(m, 65535), Ok(7));
    assert_eq!(store.mem_size(m), 2);
    // Growing past the declared maximum fails.
    assert_eq!(
        store.mem_grow(m, 3),
        Err(Error::InvalidLimit(Limits { min: 1, max: Some(4) }))
    );
}

#[test]
fn memory_allocation_and_zero_fill() {
    let mut store = Store::new();
    let m = store
        .mem_alloc(MemType { limits: Limits { min: 1, max: None } })
        .unwrap();
    assert_eq!(store.mems[m].data.len(), 65536);
    assert_eq!(store.mem_read(m, 0), Ok(0));
    assert_eq!(store.mem_read(m, 65535), Ok(0));
    // A memory over the absolute page bound is refused.
    assert_eq!(
        store.mem_alloc(MemType { limits: Limits { min: 65537, max: None } }),
        Err(Error::InvalidLimit(Limits { min: 65537, max: None }))
    );
}

#[test]
fn table_read_write_grow() {
    let mut store = Store::new();
    let t = store.table_alloc(TableType { limits: Limits { min: 0, max: Some(3) } });
    assert_eq!(store.table_size(t), 0);
    assert_eq!(store.table_read(t, 0), Err(Error::OutOfBoundTableAccess));
    assert_eq!(store.table_write(t, 0, Ref::Func(0)), Err(Error::OutOfBoundTableAccess));
    // Grow by two null references; the old size comes back.
    assert_eq!(store.table_grow(t, 2, Ref::Null(wasmic::types::Ref::Func)), Ok(0));
    assert_eq!(store.table_size(t), 2);
    assert_eq!(store.table_read(t, 1), Ok(Ref::Null(wasmic::types::Ref::Func)));
    assert_eq!(store.table_write(t, 1, Ref::Func(5)), Ok(()));
    assert_eq!(store.table_read(t, 1), Ok(Ref::Func(5)));
    // Growing past the declared maximum fails.
    assert_eq!(
        store.table_grow(t, 2, Ref::Null(wasmic::types::Ref::Func)),
        Err(Error::InvalidLimit(Limits { min: 0, max: Some(3) }))
    );
    assert_eq!(store.table_read(99, 0), Err(Error::UndefinedTable(99)));
}

#[test]
fn globals_read_write_and_mutability() {
    let mut store = Store::new();
    let c = store
        .global_alloc(
            GlobalType { mutable: Mut::Const, val: Value::Num(Number::I32) },
            Val::Num(Num::I32(3)),
        )
        .unwrap();
    let v = store
        .global_alloc(
            GlobalType { mutable: Mut::Var, val: Value::Num(Number::I64) },
            Val::Num(Num::I64(4)),
        )
        .unwrap();
    assert_eq!(store.global_read(c), Ok(Val::Num(Num::I32(3))));
    // Writing a constant global fails.
    assert_eq!(
        store.global_write(c, Val::Num(Num::I32(8))),
        Err(Error::ImmutableGlobal)
    );
    // Writing the wrong kind fails.
    assert_eq!(
        store.global_write(v, Val::Num(Num::I32(8))),
        Err(Error::TypeMismatch)
    );
    assert_eq!(store.global_write(v, Val::Num(Num::I64(8))), Ok(()));
    assert_eq!(store.global_read(v), Ok(Val::Num(Num::I64(8))));
    // Allocating with a mismatched initial value fails.
    assert_eq!(
        store.global_alloc(
            GlobalType { mutable: Mut::Var, val: Value::Num(Number::I32) },
            Val::Num(Num::I64(1)),
        ),
        Err(Error::TypeMismatch)
    );
    assert_eq!(store.global_read(17), Err(Error::UndefinedGlobal(17)));
}

#[test]
fn address_stability_across_allocations() {
    // An address once returned continues to read the same value, however
    // the store grows.
    let mut store = Store::new();
    let g = store
        .global_alloc(
            GlobalType { mutable: Mut::Const, val: Value::Num(Number::I32) },
            Val::Num(Num::I32(123)),
        )
        .unwrap();
    let t = store.table_alloc(TableType { limits: Limits { min: 0, max: None } });
    store.table_grow(t, 1, Ref::Func(77)).unwrap();
    let before = store.global_read(g).unwrap();
    let tref = store.table_read(t, 0).unwrap();
    // Interleave more allocations of every kind.
    store.func_alloc(Function { input: vec![], output: vec![] }, HostFunc {});
    store.mem_alloc(MemType { limits: Limits { min: 0, max: None } }).unwrap();
    store.table_alloc(TableType { limits: Limits { min: 0, max: None } });
    store
        .global_alloc(
            GlobalType { mutable: Mut::Var, val: Value::Num(Number::I64) },
            Val::Num(Num::I64(0)),
        )
        .unwrap();
    // The old addresses still read the same values.
    assert_eq!(store.global_read(g).unwrap(), before);
    assert_eq!(store.table_read(t, 0).unwrap(), tref);
    assert_eq!(before, Val::Num(Num::I32(123)));
    assert_eq!(tref, Ref::Func(77));
}

#[test]
fn host_functions_are_typed_but_not_callable() {
    let mut store = Store::new();
    let f = store.func_alloc(
        Function { input: vec![Value::Num(Number::I32)], output: vec![] },
        HostFunc {},
    );
    let ft = store.func_type(f);
    assert_eq!(ft.input, vec![Value::Num(Number::I32)]);
    assert_eq!(ft.output, vec![]);
    assert_eq!(
        store.invoke(f, vec![Val::Num(Num::I32(1))]),
        Err(Error::HostFunctionNotCallable)
    );
}

#[test]
fn import_checks_are_exact() {
    // A module importing one function.
    let module = Module {
        types: vec![Function { input: vec![], output: vec![] }],
        funcs: vec![],
        tables: vec![],
        mems: vec![],
        globals: vec![],
        elems: vec![],
        datas: vec![],
        start: None,
        imports: vec![wasmic::modules::Import {
            module: "env".to_string(),
            name: "f".to_string(),
            desc: wasmic::modules::ImportDesc::Func(0),
        }],
        exports: vec![],
    };
    let mut store = Store::new();
    // Too few external values.
    assert_eq!(
        ModuleInstance::instanciate(&mut store, &module, vec![]),
        Err(Error::ImportUnknown)
    );
    // The wrong kind of external value.
    assert_eq!(
        ModuleInstance::instanciate(&mut store, &module, vec![ExternalVal::Table(0)]),
        Err(Error::ImportTypeMismatch)
    );
    // A dead address.
    assert_eq!(
        ModuleInstance::instanciate(&mut store, &module, vec![ExternalVal::Fun(3)]),
        Err(Error::UndefinedFunction(3))
    );
    // A function of the wrong type.
    let wrong = store.func_alloc(
        Function { input: vec![Value::Num(Number::I32)], output: vec![] },
        HostFunc {},
    );
    assert_eq!(
        ModuleInstance::instanciate(&mut store, &module, vec![ExternalVal::Fun(wrong)]),
        Err(Error::ImportTypeMismatch)
    );
    // A function of the right type links; its address lands in the
    // instance's function directory.
    let right = store.func_alloc(Function { input: vec![], output: vec![] }, HostFunc {});
    let addr = ModuleInstance::instanciate(&mut store, &module, vec![ExternalVal::Fun(right)])
        .unwrap();
    assert_eq!(store.modules[addr].funct, vec![right]);
}

#[test]
fn shape_check_rejects_bad_modules() {
    // A function whose type index is out of range.
    let module = Module {
        types: vec![],
        funcs: vec![Func { functype: 0, locals: vec![], body: vec![] }],
        tables: vec![],
        mems: vec![],
        globals: vec![],
        elems: vec![],
        datas: vec![],
        start: None,
        imports: vec![],
        exports: vec![],
    };
    let mut store = Store::new();
    assert_eq!(
        ModuleInstance::instanciate(&mut store, &module, vec![]),
        Err(Error::ModuleValidate)
    );
    // Nothing was allocated.
    assert_eq!(store.modules.len(), 0);
    assert_eq!(store.funcinstances.len(), 0);
}

#[test]
fn start_function_runs_at_instantiation() {
    let module = Module {
        types: vec![Function { input: vec![], output: vec![] }],
        funcs: vec![Func {
            functype: 0,
            locals: vec![],
            body: vec![Instr::I32Const(9), Instr::GlobalSet(0)],
        }],
        tables: vec![],
        mems: vec![],
        globals: vec![wasmic::modules::Global {
            globaltype: GlobalType { mutable: Mut::Var, val: Value::Num(Number::I32) },
            init: vec![Instr::I32Const(0)],
        }],
        elems: vec![],
        datas: vec![],
        start: Some(0),
        imports: vec![],
        exports: vec![],
    };
    let mut store = Store::new();
    let addr = ModuleInstance::instanciate(&mut store, &module, vec![]).unwrap();
    let g = store.modules[addr].globals[0];
    assert_eq!(store.global_read(g).unwrap(), Val::Num(Num::I32(9)));
}

#[test]
fn start_function_trap_propagates() {
    let module = Module {
        types: vec![Function { input: vec![], output: vec![] }],
        funcs: vec![Func { functype: 0, locals: vec![], body: vec![Instr::Unreachable] }],
        tables: vec![],
        mems: vec![],
        globals: vec![],
        elems: vec![],
        datas: vec![],
        start: Some(0),
        imports: vec![],
        exports: vec![],
    };
    let mut store = Store::new();
    assert_eq!(
        ModuleInstance::instanciate(&mut store, &module, vec![]),
        Err(Error::TrapUnreachable)
    );
    // The allocations up to the trap stay committed.
    assert_eq!(store.modules.len(), 1);
    assert_eq!(store.funcinstances.len(), 1);
}

#[test]
fn global_initializers_and_imported_globals() {
    // The module imports an immutable global and initializes its own
    // global by reading it.
    let module = Module {
        types: vec![],
        funcs: vec![],
        tables: vec![],
        mems: vec![],
        globals: vec![wasmic::modules::Global {
            globaltype: GlobalType { mutable: Mut::Var, val: Value::Num(Number::I32) },
            init: vec![Instr::GlobalGet(0)],
        }],
        elems: vec![],
        datas: vec![],
        start: None,
        imports: vec![wasmic::modules::Import {
            module: "env".to_string(),
            name: "g".to_string(),
            desc: wasmic::modules::ImportDesc::Global(GlobalType {
                mutable: Mut::Const,
                val: Value::Num(Number::I32),
            }),
        }],
        exports: vec![],
    };
    let mut store = Store::new();
    let imported = store
        .global_alloc(
            GlobalType { mutable: Mut::Const, val: Value::Num(Number::I32) },
            Val::Num(Num::I32(31)),
        )
        .unwrap();
    let addr =
        ModuleInstance::instanciate(&mut store, &module, vec![ExternalVal::Global(imported)])
            .unwrap();
    let own = store.modules[addr].globals[1];
    assert_eq!(store.global_read(own).unwrap(), Val::Num(Num::I32(31)));
}

#[test]
fn active_element_segment_fills_the_table() {
    let module = Module {
        types: vec![Function { input: vec![], output: vec![] }],
        funcs: vec![Func { functype: 0, locals: vec![], body: vec![] }],
        tables: vec![wasmic::modules::Table {
            tabletype: TableType { limits: Limits { min: 2, max: Some(2) } },
        }],
        mems: vec![],
        globals: vec![],
        elems: vec![wasmic::modules::Element {
            elemtype: wasmic::types::Ref::Func,
            init: vec![vec![Instr::RefFunc(0)]],
            mode: wasmic::modules::ElemMode::Active(0, vec![Instr::I32Const(1)]),
        }],
        datas: vec![],
        start: None,
        imports: vec![],
        exports: vec![],
    };
    let mut store = Store::new();
    let addr = ModuleInstance::instanciate(&mut store, &module, vec![]).unwrap();
    let t = store.modules[addr].tables[0];
    let f = store.modules[addr].funct[0];
    assert_eq!(store.table_read(t, 0), Ok(Ref::Null(wasmic::types::Ref::Func)));
    assert_eq!(store.table_read(t, 1), Ok(Ref::Func(f)));
    // The applied segment is dropped: its content is cleared.
    let e = store.modules[addr].elems[0];
    assert_eq!(store.elems[e].elem.len(), 0);
}

#[test]
fn active_data_segment_writes_the_memory() {
    let module = Module {
        types: vec![],
        funcs: vec![],
        tables: vec![],
        mems: vec![ModMem { memtype: MemType { limits: Limits { min: 1, max: None } } }],
        globals: vec![],
        elems: vec![],
        datas: vec![wasmic::modules::Data {
            init: vec![9, 8, 7],
            mode: wasmic::modules::DataMode::Active(0, vec![Instr::I32Const(10)]),
        }],
        start: None,
        imports: vec![],
        exports: vec![],
    };
    let mut store = Store::new();
    let addr = ModuleInstance::instanciate(&mut store, &module, vec![]).unwrap();
    let m = store.modules[addr].mems[0];
    assert_eq!(store.mem_read(m, 9), Ok(0));
    assert_eq!(store.mem_read(m, 10), Ok(9));
    assert_eq!(store.mem_read(m, 11), Ok(8));
    assert_eq!(store.mem_read(m, 12), Ok(7));
    assert_eq!(store.mem_read(m, 13), Ok(0));
    // The applied segment is dropped.
    let d = store.modules[addr].datas[0];
    assert_eq!(store.datas[d].data.len(), 0);
}

#[test]
fn active_segment_out_of_bounds_traps_after_allocation() {
    let module = Module {
        types: vec![Function { input: vec![], output: vec![] }],
        funcs: vec![Func { functype: 0, locals: vec![], body: vec![] }],
        tables: vec![wasmic::modules::Table {
            tabletype: TableType { limits: Limits { min: 1, max: Some(1) } },
        }],
        mems: vec![],
        globals: vec![],
        elems: vec![wasmic::modules::Element {
            elemtype: wasmic::types::Ref::Func,
            init: vec![vec![Instr::RefFunc(0)]],
            mode: wasmic::modules::ElemMode::Active(0, vec![Instr::I32Const(5)]),
        }],
        datas: vec![],
        start: None,
        imports: vec![],
        exports: vec![],
    };
    let mut store = Store::new();
    let r = ModuleInstance::instanciate(&mut store, &module, vec![]);
    assert_eq!(r, Err(Error::OutOfBoundTableAccess));
    // The allocations before the failing bounds check stay committed.
    assert_eq!(store.modules.len(), 1);
    assert_eq!(store.tables.len(), 1);
}
