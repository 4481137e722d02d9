//! The static module structure: the abstract syntax a decoder or parser
//! produces and a validator checks.  Instantiation consumes a validated
//! `Module` together with resolved external values.

use vstd::prelude::*;

use crate::instr;
use crate::instr::Instr;
use crate::types;
use crate::types::{FunctionV, Index};

verus! {

/// A function declaration: its type index, declared locals and body.
pub struct Func {
    pub functype: Index,
    pub locals: Vec<types::Value>,
    pub body: instr::Expr,
}

/// The mathematical view of a function declaration.
pub struct FuncV {
    pub functype: Index,
    pub locals: Seq<types::Value>,
    pub body: Seq<Instr>,
}

impl View for Func {
    type V = FuncV;

    open spec fn view(&self) -> FuncV {
        FuncV { functype: self.functype, locals: self.locals@, body: self.body@ }
    }
}

impl Func {
    /// An explicit deep copy, so that callers know the value they receive.
    pub fn duplicate(&self) -> (r: Func)
        ensures
            r@ == self@,
    {
        Func {
            functype: self.functype,
            locals: types::values_copy(&self.locals),
            body: copy_instrs(&self.body),
        }
    }
}

/// An element-wise copy of an instruction sequence.
pub fn copy_instrs(a: &Vec<Instr>) -> (r: Vec<Instr>)
    ensures
        r@ == a@,
{
    let mut out: Vec<Instr> = Vec::new();
    let mut i: usize = 0;
    while i < a.len()
        invariant
            i <= a.len(),
            out@ == a@.take(i as int),
        decreases a.len() - i,
    {
        out.push(a[i]);
        proof {
            assert(out@ =~= a@.take(i as int + 1));
        }
        i += 1;
    }
    proof {
        assert(a@.take(a@.len() as int) =~= a@);
    }
    out
}

/// A host function marker; the invocation mechanism lives outside this
/// core.
#[derive(Clone, Copy)]
pub struct HostFunc {}

/// A table declaration.
pub struct Table {
    pub tabletype: types::Table,
}

/// A memory declaration.
pub struct Mem {
    pub memtype: types::Mem,
}

/// A global declaration with its initializer expression.
pub struct Global {
    pub globaltype: types::Global,
    pub init: instr::Expr,
}

/// How an element segment is applied at instantiation.
pub enum ElemMode {
    Passive,
    Active(Index, instr::Expr),
    Declarative,
}

/// An element segment: reference kind, initializer expressions, mode.
pub struct Element {
    pub elemtype: types::Ref,
    pub init: Vec<instr::Expr>,
    pub mode: ElemMode,
}

/// How a data segment is applied at instantiation.
pub enum DataMode {
    Passive,
    Active(Index, instr::Expr),
}

/// A data segment: its byte payload and mode.
pub struct Data {
    pub init: Vec<types::Byte>,
    pub mode: DataMode,
}

/// What an export designates, by index into the respective index space.
pub enum ExportDesc {
    Func(Index),
    Table(Index),
    Mem(Index),
    Global(Index),
}

/// A named export.
pub struct Export {
    pub name: String,
    pub desc: ExportDesc,
}

/// What an import requires: a function type index or a table, memory or
/// global type.
pub enum ImportDesc {
    Func(Index),
    Table(types::Table),
    Mem(types::Mem),
    Global(types::Global),
}

/// A named import.
pub struct Import {
    pub module: String,
    pub name: String,
    pub desc: ImportDesc,
}

/// A module: the abstract structure both encodings decode into.
pub struct Module {
    pub types: Vec<types::Function>,
    pub funcs: Vec<Func>,
    pub tables: Vec<Table>,
    pub mems: Vec<Mem>,
    pub globals: Vec<Global>,
    pub elems: Vec<Element>,
    pub datas: Vec<Data>,
    pub start: Option<Index>,
    pub imports: Vec<Import>,
    pub exports: Vec<Export>,
}

/// The mathematical view of an element segment.
pub struct ElementV {
    pub elemtype: types::Ref,
    pub init: Seq<Seq<Instr>>,
    pub mode: ElemModeV,
}

/// The mathematical view of an element mode.
pub enum ElemModeV {
    Passive,
    Active(Index, Seq<Instr>),
    Declarative,
}

impl View for Element {
    type V = ElementV;

    open spec fn view(&self) -> ElementV {
        ElementV {
            elemtype: self.elemtype,
            init: self.init@.map_values(|e: instr::Expr| e@),
            mode: match self.mode {
                ElemMode::Passive => ElemModeV::Passive,
                ElemMode::Active(t, e) => ElemModeV::Active(t, e@),
                ElemMode::Declarative => ElemModeV::Declarative,
            },
        }
    }
}

/// The mathematical view of a data mode.
pub enum DataModeV {
    Passive,
    Active(Index, Seq<Instr>),
}

/// The mathematical view of a data segment.
pub struct DataV {
    pub init: Seq<types::Byte>,
    pub mode: DataModeV,
}

impl View for Data {
    type V = DataV;

    open spec fn view(&self) -> DataV {
        DataV {
            init: self.init@,
            mode: match self.mode {
                DataMode::Passive => DataModeV::Passive,
                DataMode::Active(m, e) => DataModeV::Active(m, e@),
            },
        }
    }
}

/// The mathematical view of an export.
pub struct ExportV {
    pub name: Seq<char>,
    pub desc: ExportDesc,
}

impl View for Export {
    type V = ExportV;

    open spec fn view(&self) -> ExportV {
        ExportV { name: self.name@, desc: self.desc }
    }
}

/// The mathematical view of an import.
pub struct ImportV {
    pub module: Seq<char>,
    pub name: Seq<char>,
    pub desc: ImportDesc,
}

impl View for Import {
    type V = ImportV;

    open spec fn view(&self) -> ImportV {
        ImportV { module: self.module@, name: self.name@, desc: self.desc }
    }
}

/// The mathematical view of a global declaration.
pub struct GlobalV {
    pub globaltype: types::Global,
    pub init: Seq<Instr>,
}

impl View for Global {
    type V = GlobalV;

    open spec fn view(&self) -> GlobalV {
        GlobalV { globaltype: self.globaltype, init: self.init@ }
    }
}

/// The mathematical view of a module.
pub struct ModuleV {
    pub types: Seq<FunctionV>,
    pub funcs: Seq<FuncV>,
    pub tables: Seq<types::Table>,
    pub mems: Seq<types::Mem>,
    pub globals: Seq<GlobalV>,
    pub elems: Seq<ElementV>,
    pub datas: Seq<DataV>,
    pub start: Option<Index>,
    pub imports: Seq<ImportV>,
    pub exports: Seq<ExportV>,
}

impl View for Module {
    type V = ModuleV;

    open spec fn view(&self) -> ModuleV {
        ModuleV {
            types: self.types@.map_values(|f: types::Function| f@),
            funcs: self.funcs@.map_values(|f: Func| f@),
            tables: self.tables@.map_values(|t: Table| t.tabletype),
            mems: self.mems@.map_values(|m: Mem| m.memtype),
            globals: self.globals@.map_values(|g: Global| g@),
            elems: self.elems@.map_values(|e: Element| e@),
            datas: self.datas@.map_values(|d: Data| d@),
            start: self.start,
            imports: self.imports@.map_values(|i: Import| i@),
            exports: self.exports@.map_values(|e: Export| e@),
        }
    }
}

} // verus!
