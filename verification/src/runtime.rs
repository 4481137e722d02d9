//! Runtime structures: values, the store, module instances, function
//! instances, tables, memories, globals, segments, exports, frames and
//! stack entries.
//!
//! The store owns every runtime object; all references between objects are
//! stable integer addresses into its sequences.  Floating-point values are
//! carried as their IEEE 754 bit patterns, which is all that moves and
//! constants require.

use vstd::prelude::*;

use crate::instr::Instr;
use crate::modules::{Func, FuncV};
use crate::types;
use crate::types::{Addr, FunctionV};

verus! {

/// A numeric value: a 32- or 64-bit integer, or a float by bit pattern.
#[derive(Clone, Copy, Debug, PartialEq, Eq, Structural)]
pub enum Num {
    I32(u32),
    I64(u64),
    /// A 32-bit float, as its bit pattern.
    F32(u32),
    /// A 64-bit float, as its bit pattern.
    F64(u64),
}

/// A reference value: a typed null or the address of a function or extern
/// object in the store.
#[derive(Clone, Copy, Debug, PartialEq, Eq, Structural)]
pub enum Ref {
    Null(types::Ref),
    Func(Addr),
    Extern(Addr),
}

/// A runtime value: a number, a 128-bit vector lane, or a reference.
#[derive(Clone, Copy, Debug, PartialEq, Eq, Structural)]
pub enum Val {
    Num(Num),
    Vector(u128),
    Ref(Ref),
}

/// The value kind tagging a runtime value.
pub open spec fn kind_of(v: Val) -> types::Value {
    match v {
        Val::Num(Num::I32(_)) => types::Value::Num(types::Number::I32),
        Val::Num(Num::I64(_)) => types::Value::Num(types::Number::I64),
        Val::Num(Num::F32(_)) => types::Value::Num(types::Number::F32),
        Val::Num(Num::F64(_)) => types::Value::Num(types::Number::F64),
        Val::Vector(_) => types::Value::Vector(types::Vector::V128),
        Val::Ref(Ref::Null(rt)) => types::Value::Ref(rt),
        Val::Ref(Ref::Func(_)) => types::Value::Ref(types::Ref::Func),
        Val::Ref(Ref::Extern(_)) => types::Value::Ref(types::Ref::Extern),
    }
}

/// The zero value of each value kind; declared locals start out as these.
pub open spec fn default_of(t: types::Value) -> Val {
    match t {
        types::Value::Num(types::Number::I32) => Val::Num(Num::I32(0)),
        types::Value::Num(types::Number::I64) => Val::Num(Num::I64(0)),
        types::Value::Num(types::Number::F32) => Val::Num(Num::F32(0)),
        types::Value::Num(types::Number::F64) => Val::Num(Num::F64(0)),
        types::Value::Vector(_) => Val::Vector(0),
        types::Value::Ref(rt) => Val::Ref(Ref::Null(rt)),
    }
}

impl Val {
    /// The kind tagging this value.
    pub fn kind(&self) -> (k: types::Value)
        ensures
            k == kind_of(*self),
    {
        match self {
            Val::Num(Num::I32(_)) => types::Value::Num(types::Number::I32),
            Val::Num(Num::I64(_)) => types::Value::Num(types::Number::I64),
            Val::Num(Num::F32(_)) => types::Value::Num(types::Number::F32),
            Val::Num(Num::F64(_)) => types::Value::Num(types::Number::F64),
            Val::Vector(_) => types::Value::Vector(types::Vector::V128),
            Val::Ref(Ref::Null(rt)) => types::Value::Ref(*rt),
            Val::Ref(Ref::Func(_)) => types::Value::Ref(types::Ref::Func),
            Val::Ref(Ref::Extern(_)) => types::Value::Ref(types::Ref::Extern),
        }
    }

    /// The zero value of a kind.
    pub fn default_value(t: types::Value) -> (v: Val)
        ensures
            v == default_of(t),
    {
        match t {
            types::Value::Num(types::Number::I32) => Val::Num(Num::I32(0)),
            types::Value::Num(types::Number::I64) => Val::Num(Num::I64(0)),
            types::Value::Num(types::Number::F32) => Val::Num(Num::F32(0)),
            types::Value::Num(types::Number::F64) => Val::Num(Num::F64(0)),
            types::Value::Vector(_) => Val::Vector(0),
            types::Value::Ref(rt) => Val::Ref(Ref::Null(rt)),
        }
    }

    fn default_i32() -> (v: Val)
        ensures
            v == Val::Num(Num::I32(0)),
    {
        Val::Num(Num::I32(0))
    }

    fn default_i64() -> (v: Val)
        ensures
            v == Val::Num(Num::I64(0)),
    {
        Val::Num(Num::I64(0))
    }

    fn default_f32() -> (v: Val)
        ensures
            v == Val::Num(Num::F32(0)),
    {
        Val::Num(Num::F32(0))
    }

    fn default_f64() -> (v: Val)
        ensures
            v == Val::Num(Num::F64(0)),
    {
        Val::Num(Num::F64(0))
    }

    fn default_vec() -> (v: Val)
        ensures
            v == Val::Vector(0),
    {
        Val::Vector(0)
    }

    fn default_ref(reftype: types::Ref) -> (v: Val)
        ensures
            v == Val::Ref(Ref::Null(reftype)),
    {
        Val::Ref(Ref::Null(reftype))
    }
}

/// The outcome of an invocation: a value sequence or a trap.
pub enum Res {
    Res(Vec<Val>),
    Trap,
}

/// An external value: a tagged address crossing the instance boundary.
#[derive(Clone, Copy, Debug, PartialEq, Eq, Structural)]
pub enum ExternalVal {
    Fun(Addr),
    Table(Addr),
    Mem(Addr),
    Global(Addr),
}

/// A named export of a module instance.
pub struct Export {
    pub name: String,
    pub value: ExternalVal,
}

/// The mathematical view of an export.
pub struct ExportV {
    pub name: Seq<char>,
    pub value: ExternalVal,
}

impl View for Export {
    type V = ExportV;

    open spec fn view(&self) -> ExportV {
        ExportV { name: self.name@, value: self.value }
    }
}

/// A module instance: a directory of addresses into the store, plus the
/// export table.
pub struct ModuleInstance {
    pub types: Vec<types::Function>,
    pub funct: Vec<Addr>,
    pub tables: Vec<Addr>,
    pub mems: Vec<Addr>,
    pub globals: Vec<Addr>,
    pub elems: Vec<Addr>,
    pub datas: Vec<Addr>,
    pub exports: Vec<Export>,
}

/// The mathematical view of a module instance.
pub struct ModuleInstanceV {
    pub types: Seq<FunctionV>,
    pub funct: Seq<Addr>,
    pub tables: Seq<Addr>,
    pub mems: Seq<Addr>,
    pub globals: Seq<Addr>,
    pub elems: Seq<Addr>,
    pub datas: Seq<Addr>,
    pub exports: Seq<ExportV>,
}

impl View for ModuleInstance {
    type V = ModuleInstanceV;

    open spec fn view(&self) -> ModuleInstanceV {
        ModuleInstanceV {
            types: self.types@.map_values(|f: types::Function| f@),
            funct: self.funct@,
            tables: self.tables@,
            mems: self.mems@,
            globals: self.globals@,
            elems: self.elems@,
            datas: self.datas@,
            exports: self.exports@.map_values(|e: Export| e@),
        }
    }
}

impl ModuleInstance {
    /// An instance with every directory empty.
    pub fn new() -> (r: ModuleInstance)
        ensures
            r@.types.len() == 0,
            r@.funct.len() == 0,
            r@.tables.len() == 0,
            r@.mems.len() == 0,
            r@.globals.len() == 0,
            r@.elems.len() == 0,
            r@.datas.len() == 0,
            r@.exports.len() == 0,
    {
        ModuleInstance {
            types: Vec::new(),
            funct: Vec::new(),
            tables: Vec::new(),
            mems: Vec::new(),
            globals: Vec::new(),
            elems: Vec::new(),
            datas: Vec::new(),
            exports: Vec::new(),
        }
    }
}

/// A function instance owned by a module instance, with its code.
pub struct InternalFuncInstance {
    pub functype: types::Function,
    /// The address of the owning module instance in the store.
    pub module: Addr,
    pub code: Func,
}

/// A function provided by the host; this core records only its type.
pub struct HostFuncInstance {
    pub functype: types::Function,
}

/// A function instance: internal (with code) or host.
pub enum FuncInstance {
    Internal(InternalFuncInstance),
    Host(HostFuncInstance),
}

/// The mathematical view of a function instance.
pub enum FuncInstanceV {
    Internal { functype: FunctionV, module: Addr, code: FuncV },
    Host { functype: FunctionV },
}

impl View for FuncInstance {
    type V = FuncInstanceV;

    open spec fn view(&self) -> FuncInstanceV {
        match self {
            FuncInstance::Internal(f) => FuncInstanceV::Internal {
                functype: f.functype@,
                module: f.module,
                code: f.code@,
            },
            FuncInstance::Host(f) => FuncInstanceV::Host { functype: f.functype@ },
        }
    }
}

impl FuncInstanceV {
    /// The type of the function, whichever shape it has.
    pub open spec fn functype(self) -> FunctionV {
        match self {
            FuncInstanceV::Internal { functype, .. } => functype,
            FuncInstanceV::Host { functype } => functype,
        }
    }
}

/// A table instance: its type and the reference vector.
pub struct Table {
    pub tabletype: types::Table,
    pub elem: Vec<Ref>,
}

/// The mathematical view of a table instance.
pub struct TableV {
    pub tabletype: types::Table,
    pub elem: Seq<Ref>,
}

impl View for Table {
    type V = TableV;

    open spec fn view(&self) -> TableV {
        TableV { tabletype: self.tabletype, elem: self.elem@ }
    }
}

/// A memory instance: its type and the byte vector, always a whole number
/// of 65536-byte pages.
pub struct Mem {
    pub memtype: types::Mem,
    pub data: Vec<types::Byte>,
}

/// The mathematical view of a memory instance.
pub struct MemV {
    pub memtype: types::Mem,
    pub data: Seq<types::Byte>,
}

impl View for Mem {
    type V = MemV;

    open spec fn view(&self) -> MemV {
        MemV { memtype: self.memtype, data: self.data@ }
    }
}

/// A global instance: its type and current value.
#[derive(Clone, Copy, Debug, PartialEq, Eq, Structural)]
pub struct Global {
    pub globaltype: types::Global,
    pub value: Val,
}

/// An element segment instance; `elem.drop` empties it.
pub struct Elem {
    pub elemtype: types::Ref,
    pub elem: Vec<Ref>,
}

/// The mathematical view of an element segment.
pub struct ElemV {
    pub elemtype: types::Ref,
    pub elem: Seq<Ref>,
}

impl View for Elem {
    type V = ElemV;

    open spec fn view(&self) -> ElemV {
        ElemV { elemtype: self.elemtype, elem: self.elem@ }
    }
}

/// A data segment instance; `data.drop` empties it.
pub struct Data {
    pub data: Vec<types::Byte>,
}

/// The mathematical view of a data segment.
pub struct DataV {
    pub data: Seq<types::Byte>,
}

impl View for Data {
    type V = DataV;

    open spec fn view(&self) -> DataV {
        DataV { data: self.data@ }
    }
}

/// The store: the single owner of all runtime objects, addressed by
/// stable indices.
pub struct Store {
    pub modules: Vec<ModuleInstance>,
    pub funcinstances: Vec<FuncInstance>,
    pub tables: Vec<Table>,
    pub mems: Vec<Mem>,
    pub globals: Vec<Global>,
    pub elems: Vec<Elem>,
    pub datas: Vec<Data>,
}

/// The mathematical view of the store.
pub struct StoreV {
    pub modules: Seq<ModuleInstanceV>,
    pub funcinstances: Seq<FuncInstanceV>,
    pub tables: Seq<TableV>,
    pub mems: Seq<MemV>,
    pub globals: Seq<Global>,
    pub elems: Seq<ElemV>,
    pub datas: Seq<DataV>,
}

impl View for Store {
    type V = StoreV;

    open spec fn view(&self) -> StoreV {
        StoreV {
            modules: self.modules@.map_values(|m: ModuleInstance| m@),
            funcinstances: self.funcinstances@.map_values(|f: FuncInstance| f@),
            tables: self.tables@.map_values(|t: Table| t@),
            mems: self.mems@.map_values(|m: Mem| m@),
            globals: self.globals@,
            elems: self.elems@.map_values(|e: Elem| e@),
            datas: self.datas@.map_values(|d: Data| d@),
        }
    }
}

impl Store {
    /// A store owning nothing yet.
    pub fn new() -> (r: Store)
        ensures
            r@.modules.len() == 0,
            r@.funcinstances.len() == 0,
            r@.tables.len() == 0,
            r@.mems.len() == 0,
            r@.globals.len() == 0,
            r@.elems.len() == 0,
            r@.datas.len() == 0,
    {
        Store {
            modules: Vec::new(),
            funcinstances: Vec::new(),
            tables: Vec::new(),
            mems: Vec::new(),
            globals: Vec::new(),
            elems: Vec::new(),
            datas: Vec::new(),
        }
    }
}

/// A control-block marker: its arity and continuation body.
pub struct Label {
    pub arity: usize,
    pub instr: Vec<Instr>,
}

/// The mutable state of an activation: locals and the owning instance's
/// address.
pub struct FrameState {
    pub locals: Vec<Val>,
    /// The address of the owning module instance in the store.
    pub module: Addr,
}

/// An activation record: result arity and frame state.
pub struct Frame {
    pub arity: usize,
    pub framestate: FrameState,
}

/// The mathematical view of a frame.
pub struct FrameV {
    pub arity: nat,
    pub locals: Seq<Val>,
    pub module: Addr,
}

impl View for Frame {
    type V = FrameV;

    open spec fn view(&self) -> FrameV {
        FrameV {
            arity: self.arity as nat,
            locals: self.framestate.locals@,
            module: self.framestate.module,
        }
    }
}

impl Frame {
    /// A frame with no locals and arity zero, owned by the instance at
    /// `module`.
    pub fn new(module: Addr) -> (r: Frame)
        ensures
            r@.arity == 0,
            r@.locals.len() == 0,
            r@.module == module,
    {
        Frame { arity: 0, framestate: FrameState { locals: Vec::new(), module } }
    }
}

/// One entry of the interpreter's heterogeneous stack.
pub enum StackEntry {
    Value(Val),
    Label(Label),
    Activation(i64, Frame),
}

} // verus!
