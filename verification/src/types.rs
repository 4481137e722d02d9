//! Static type descriptors: number, vector and reference kinds, value
//! kinds, function types, limits, memory, table and global types, and the
//! external type classes crossing the import/export boundary.

use vstd::prelude::*;

use crate::validation::{Context, Validable};

verus! {

pub type Byte = u8;
pub type Int = usize;

pub type Index = Int;
pub type Addr = Int;

/// A memory page is 65536 bytes: the granularity of memory size and
/// growth.
pub const PAGE_SIZE: usize = 65536;

/// Memory size limits are expressed in pages of 65536 bytes; a memory may
/// never exceed this many pages.
pub const MAX_PAGES: usize = 65536;

/// A table may never hold more than this many elements.
pub const MAX_TABLE_SIZE: usize = 0xffff_ffff;

#[derive(Clone, Copy, Debug, PartialEq, Eq, Structural)]
pub enum Number {
    I32,
    I64,
    F32,
    F64,
}

/// The 128-bit vector lane kind; vector operations themselves are outside
/// this core.
#[derive(Clone, Copy, Debug, PartialEq, Eq, Structural)]
pub enum Vector {
    V128,
}

#[derive(Clone, Copy, Debug, PartialEq, Eq, Structural)]
pub enum Ref {
    Func,
    Extern,
}

/// The kind tagging a runtime value.
#[derive(Clone, Copy, Debug, PartialEq, Eq, Structural)]
pub enum Value {
    Num(Number),
    Vector(Vector),
    Ref(Ref),
}

/// An ordered sequence of value kinds, as it appears on either side of a
/// function type.
pub type ResultType = Vec<Value>;

/// A function type: input value kinds and output value kinds.
#[derive(Debug)]
pub struct Function {
    pub input: ResultType,
    pub output: ResultType,
}

/// The mathematical view of a function type.
pub struct FunctionV {
    pub input: Seq<Value>,
    pub output: Seq<Value>,
}

impl View for Function {
    type V = FunctionV;

    open spec fn view(&self) -> FunctionV {
        FunctionV { input: self.input@, output: self.output@ }
    }
}

impl Function {
    /// Structural equality of function types; indirect calls compare the
    /// callee's type against the declared type with this.
    pub fn type_eq(&self, other: &Function) -> (r: bool)
        ensures
            r == (self@.input == other@.input && self@.output == other@.output),
    {
        values_eq(&self.input, &other.input) && values_eq(&self.output, &other.output)
    }

    /// An explicit deep copy, so that callers know the value they receive.
    pub fn duplicate(&self) -> (r: Function)
        ensures
            r@.input == self@.input,
            r@.output == self@.output,
    {
        Function { input: values_copy(&self.input), output: values_copy(&self.output) }
    }
}

/// Element-wise equality of two value-kind vectors.
pub fn values_eq(a: &Vec<Value>, b: &Vec<Value>) -> (r: bool)
    ensures
        r == (a@ == b@),
{
    if a.len() != b.len() {
        return false;
    }
    let mut i: usize = 0;
    while i < a.len()
        invariant
            i <= a.len(),
            a@.len() == b@.len(),
            forall|j: int| 0 <= j < i ==> a@[j] == b@[j],
        decreases a.len() - i,
    {
        if a[i] != b[i] {
            return false;
        }
        i += 1;
    }
    proof {
        assert(a@ =~= b@);
    }
    true
}

/// An element-wise copy of a value-kind vector.
pub fn values_copy(a: &Vec<Value>) -> (r: Vec<Value>)
    ensures
        r@ == a@,
{
    let mut out: Vec<Value> = Vec::new();
    let mut i: usize = 0;
    while i < a.len()
        invariant
            i <= a.len(),
            out@ == a@.take(i as int),
        decreases a.len() - i,
    {
        out.push(a[i]);
        proof {
            assert(out@ =~= a@.take(i as int + 1));
        }
        i += 1;
    }
    proof {
        assert(a@.take(a@.len() as int) =~= a@);
    }
    out
}

/// Size limits `(min, max?)`.  A table or memory whose current size is `n`
/// satisfies limits `(min, max?)` when `min <= n` and, if `max` is set,
/// `n <= max`.
#[derive(Clone, Copy, Debug, PartialEq)]
pub struct Limits {
    pub min: Int,
    pub max: Option<Int>,
}

/// Limit subtyping: `l1` is usable where `l2` is expected when `l1.min >=
/// l2.min` and either `l2.max` is absent or `l1.max` is present and at most
/// `l2.max`.
pub open spec fn limits_subtype(l1: Limits, l2: Limits) -> bool {
    &&& l1.min >= l2.min
    &&& match l2.max {
        Option::None => true,
        Option::Some(max2) => match l1.max {
            Option::None => false,
            Option::Some(max1) => max1 <= max2,
        },
    }
}

impl Limits {
    pub fn is_subtype(&self, other: &Limits) -> (r: bool)
        ensures
            r == limits_subtype(*self, *other),
    {
        match (self.max, other.max) {
            (_, Option::None) => self.min >= other.min,
            (Option::None, Option::Some(_)) => false,
            (Option::Some(max1), Option::Some(max2)) => self.min >= other.min && max1 <= max2,
        }
    }
}

/// Law: limit subtyping is reflexive.
pub proof fn lemma_limits_subtype_reflexive(l: Limits)
    ensures
        limits_subtype(l, l),
{
}

/// Law: limit subtyping is transitive.
pub proof fn lemma_limits_subtype_transitive(a: Limits, b: Limits, c: Limits)
    requires
        limits_subtype(a, b),
        limits_subtype(b, c),
    ensures
        limits_subtype(a, c),
{
}

/// A memory type: limits counted in 65536-byte pages.
#[derive(Clone, Copy, Debug, PartialEq)]
pub struct Mem {
    pub limits: Limits,
}

/// A table type: limits counted in elements.
#[derive(Clone, Copy, Debug, PartialEq)]
pub struct Table {
    pub limits: Limits,
}

#[derive(Clone, Copy, Debug, PartialEq, Eq, Structural)]
pub enum Mut {
    Const,
    Var,
}

/// A global type: a value kind and a mutability flag.
#[derive(Clone, Copy, Debug, PartialEq, Eq, Structural)]
pub struct Global {
    pub mutable: Mut,
    pub val: Value,
}

/// An external type, classifying a value that crosses the import/export
/// boundary.
#[derive(Debug)]
pub enum Extern {
    Func(Function),
    Table(Table),
    Mem(Mem),
    Global(Global),
}

impl Validable for Number {
    open spec fn valid_spec(&self, context: &Context, k: Option<Int>) -> bool {
        true
    }

    fn is_valid(&self, context: &Context, k: Option<Int>) -> bool {
        true
    }
}

impl Validable for Ref {
    open spec fn valid_spec(&self, context: &Context, k: Option<Int>) -> bool {
        true
    }

    fn is_valid(&self, context: &Context, k: Option<Int>) -> bool {
        true
    }
}

impl Validable for Value {
    open spec fn valid_spec(&self, context: &Context, k: Option<Int>) -> bool {
        true
    }

    fn is_valid(&self, context: &Context, k: Option<Int>) -> bool {
        true
    }
}

impl Validable for Function {
    open spec fn valid_spec(&self, context: &Context, k: Option<Int>) -> bool {
        true
    }

    fn is_valid(&self, context: &Context, k: Option<Int>) -> bool {
        true
    }
}

impl Validable for Limits {
    open spec fn valid_spec(&self, context: &Context, k: Option<Int>) -> bool {
        match (self.max, k) {
            (Option::None, Option::None) => true,
            (Option::Some(max), Option::None) => self.min <= max,
            (Option::None, Option::Some(limit)) => self.min <= limit,
            (Option::Some(max), Option::Some(limit)) => self.min <= max && self.min <= limit
                && max <= limit,
        }
    }

    fn is_valid(&self, context: &Context, k: Option<Int>) -> (r: bool)
        ensures
            r == self.valid_spec(context, k),
    {
        match (self.max, k) {
            (Option::None, Option::None) => true,
            (Option::Some(max), Option::None) => self.min <= max,
            (Option::None, Option::Some(limit)) => self.min <= limit,
            (Option::Some(max), Option::Some(limit)) => self.min <= max && self.min <= limit
                && max <= limit,
        }
    }
}

impl Validable for Mem {
    open spec fn valid_spec(&self, context: &Context, k: Option<Int>) -> bool {
        self.limits.valid_spec(context, Option::Some(MAX_PAGES))
    }

    fn is_valid(&self, context: &Context, k: Option<Int>) -> (r: bool)
        ensures
            r == self.valid_spec(context, k),
    {
        self.limits.is_valid(context, Option::Some(MAX_PAGES))
    }
}

impl Validable for Table {
    open spec fn valid_spec(&self, context: &Context, k: Option<Int>) -> bool {
        self.limits.valid_spec(context, Option::Some(MAX_TABLE_SIZE))
    }

    fn is_valid(&self, context: &Context, k: Option<Int>) -> (r: bool)
        ensures
            r == self.valid_spec(context, k),
    {
        self.limits.is_valid(context, Option::Some(MAX_TABLE_SIZE))
    }
}

impl Validable for Mut {
    open spec fn valid_spec(&self, context: &Context, k: Option<Int>) -> bool {
        true
    }

    fn is_valid(&self, context: &Context, k: Option<Int>) -> bool {
        true
    }
}

impl Validable for Global {
    open spec fn valid_spec(&self, context: &Context, k: Option<Int>) -> bool {
        true
    }

    fn is_valid(&self, context: &Context, k: Option<Int>) -> bool {
        true
    }
}

impl Validable for Extern {
    open spec fn valid_spec(&self, context: &Context, k: Option<Int>) -> bool {
        match self {
            Extern::Func(fun) => fun.valid_spec(context, k),
            Extern::Table(table) => table.valid_spec(context, k),
            Extern::Mem(mem) => mem.valid_spec(context, k),
            Extern::Global(glob) => glob.valid_spec(context, k),
        }
    }

    fn is_valid(&self, context: &Context, k: Option<Int>) -> (r: bool)
        ensures
            r == self.valid_spec(context, k),
    {
        match self {
            Extern::Func(fun) => fun.is_valid(context, k),
            Extern::Table(table) => table.is_valid(context, k),
            Extern::Mem(mem) => mem.is_valid(context, k),
            Extern::Global(glob) => glob.is_valid(context, k),
        }
    }
}

} // verus!
