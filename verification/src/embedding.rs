//! The embedding facade: what a host program calls.
//!
//! The store offers allocation, type introspection and typed
//! read/write/grow for every object kind, plus `invoke`; a module instance
//! offers export lookup and instantiation.  Every operation's behaviour is
//! stated exactly over the store's mathematical view.

use vstd::prelude::*;

use crate::err::Error;
use crate::instr::Instr;
use crate::modules;
use crate::modules::Module;
use crate::runtime::{
    default_of,
    kind_of,
    Num,
    Data,
    DataV,
    Elem,
    ElemV,
    Export,
    ExportV,
    ExternalVal,
    Frame,
    FrameState,
    FuncInstance,
    FuncInstanceV,
    Global,
    HostFuncInstance,
    InternalFuncInstance,
    Mem,
    MemV,
    ModuleInstance,
    ModuleInstanceV,
    Ref,
    Store,
    StoreV,
    Table,
    TableV,
    Val,
};
use crate::types;
use crate::types::{limits_subtype, Addr, MAX_PAGES, MAX_TABLE_SIZE, PAGE_SIZE};
use crate::vm;
use crate::vm::{defaults_of, CALL_DEPTH_LIMIT};

verus! {

/// Whether a value sequence matches an input kind vector, element for
/// element.
pub open spec fn args_match(vals: Seq<Val>, input: Seq<types::Value>) -> bool {
    &&& vals.len() == input.len()
    &&& forall|i: int| 0 <= i < vals.len() ==> kind_of(vals[i]) == input[i]
}

/// One store grew out of another: every sequence of the first is a prefix
/// of the second's, so every address handed out against the first still
/// denotes the same entry.
pub open spec fn store_extends(s1: StoreV, s2: StoreV) -> bool {
    &&& s1.modules.is_prefix_of(s2.modules)
    &&& s1.funcinstances.is_prefix_of(s2.funcinstances)
    &&& s1.tables.is_prefix_of(s2.tables)
    &&& s1.mems.is_prefix_of(s2.mems)
    &&& s1.globals.is_prefix_of(s2.globals)
    &&& s1.elems.is_prefix_of(s2.elems)
    &&& s1.datas.is_prefix_of(s2.datas)
}

/// Law: address stability.  Allocation only appends: once a store has
/// grown, every address that was live before still reads the very same
/// entry, of the same kind.
pub proof fn lemma_address_stability(s1: StoreV, s2: StoreV)
    requires
        store_extends(s1, s2),
    ensures
        forall|a: int| 0 <= a < s1.modules.len() ==> s2.modules[a] == s1.modules[a],
        forall|a: int| 0 <= a < s1.funcinstances.len() ==> s2.funcinstances[a]
            == s1.funcinstances[a],
        forall|a: int| 0 <= a < s1.tables.len() ==> s2.tables[a] == s1.tables[a],
        forall|a: int| 0 <= a < s1.mems.len() ==> s2.mems[a] == s1.mems[a],
        forall|a: int| 0 <= a < s1.globals.len() ==> s2.globals[a] == s1.globals[a],
        forall|a: int| 0 <= a < s1.elems.len() ==> s2.elems[a] == s1.elems[a],
        forall|a: int| 0 <= a < s1.datas.len() ==> s2.datas[a] == s1.datas[a],
{
}

/// Law: growing a store twice still extends the first store.
pub proof fn lemma_store_extends_transitive(s1: StoreV, s2: StoreV, s3: StoreV)
    requires
        store_extends(s1, s2),
        store_extends(s2, s3),
    ensures
        store_extends(s1, s3),
{
}

impl Store {
    /// Appends a host function instance of the given type; its address is
    /// returned and every older address is untouched.
    pub fn func_alloc(&mut self, functype: types::Function, hostfunc: modules::HostFunc) -> (r:
        Addr)
        ensures
            final(self)@.funcinstances == old(self)@.funcinstances.push(
                FuncInstanceV::Host { functype: functype@ },
            ),
            final(self)@ == (StoreV { funcinstances: final(self)@.funcinstances, ..old(self)@ }),
            r == old(self)@.funcinstances.len(),
            store_extends(old(self)@, final(self)@),
    {
        let r = self.funcinstances.len();
        self.funcinstances.push(FuncInstance::Host(HostFuncInstance { functype }));
        proof {
            assert(final(self)@.funcinstances =~= old(self)@.funcinstances.push(
                FuncInstanceV::Host { functype: functype@ },
            ));
        }
        r
    }

    /// The type of the function at `addr`, which must be live.
    pub fn func_type(&self, addr: Addr) -> (r: types::Function)
        requires
            addr < self@.funcinstances.len(),
        ensures
            r@ == self@.funcinstances[addr as int].functype(),
    {
        match &self.funcinstances[addr] {
            FuncInstance::Internal(f) => f.functype.duplicate(),
            FuncInstance::Host(f) => f.functype.duplicate(),
        }
    }

    /// Appends a table of the given type with an empty element vector.
    pub fn table_alloc(&mut self, tabletype: types::Table) -> (r: Addr)
        ensures
            final(self)@.tables == old(self)@.tables.push(
                TableV { tabletype, elem: Seq::empty() },
            ),
            final(self)@ == (StoreV { tables: final(self)@.tables, ..old(self)@ }),
            r == old(self)@.tables.len(),
            store_extends(old(self)@, final(self)@),
    {
        let r = self.tables.len();
        self.tables.push(Table { tabletype, elem: Vec::new() });
        proof {
            assert(final(self)@.tables =~= old(self)@.tables.push(
                TableV { tabletype, elem: Seq::empty() },
            ));
        }
        r
    }

    /// The type of the table at `addr`, which must be live.
    pub fn table_type(&self, addr: Addr) -> (r: types::Table)
        requires
            addr < self@.tables.len(),
        ensures
            r == self@.tables[addr as int].tabletype,
    {
        self.tables[addr].tabletype
    }

    /// The reference at `index` of the table at `addr`, or the trap for an
    /// out-of-bounds access.
    pub fn table_read(&self, addr: Addr, index: usize) -> (r: Result<Ref, Error>)
        ensures
            r == (if addr >= self@.tables.len() {
                Result::<Ref, Error>::Err(Error::UndefinedTable(addr))
            } else if index >= self@.tables[addr as int].elem.len() {
                Result::<Ref, Error>::Err(Error::OutOfBoundTableAccess)
            } else {
                Result::<Ref, Error>::Ok(self@.tables[addr as int].elem[index as int])
            }),
    {
        if addr >= self.tables.len() {
            return Result::Err(Error::UndefinedTable(addr));
        }
        if index >= self.tables[addr].elem.len() {
            return Result::Err(Error::OutOfBoundTableAccess);
        }
        Result::Ok(self.tables[addr].elem[index])
    }

    /// Replaces the reference at `index` of the table at `addr`, with the
    /// same bounds policy as `table_read`.
    pub fn table_write(&mut self, addr: Addr, index: usize, value: Ref) -> (r: Result<(), Error>)
        ensures
            (if addr >= old(self)@.tables.len() {
                r == Result::<(), Error>::Err(Error::UndefinedTable(addr)) && final(self)@ == old(self)@
            } else if index >= old(self)@.tables[addr as int].elem.len() {
                r == Result::<(), Error>::Err(Error::OutOfBoundTableAccess) && final(self)@ == old(self)@
            } else {
                &&& r == Result::<(), Error>::Ok(())
                &&& final(self)@.tables == old(self)@.tables.update(
                    addr as int,
                    TableV {
                        tabletype: old(self)@.tables[addr as int].tabletype,
                        elem: old(self)@.tables[addr as int].elem.update(index as int, value),
                    },
                )
                &&& final(self)@ == (StoreV { tables: final(self)@.tables, ..old(self)@ })
            }),
    {
        if addr >= self.tables.len() {
            return Result::Err(Error::UndefinedTable(addr));
        }
        if index >= self.tables[addr].elem.len() {
            return Result::Err(Error::OutOfBoundTableAccess);
        }
        let tabletype = self.tables[addr].tabletype;
        let mut t = Table { tabletype, elem: Vec::new() };
        self.tables.set_and_swap(addr, &mut t);
        t.elem.set(index, value);
        self.tables.set(addr, t);
        proof {
            assert(final(self)@.tables =~= old(self)@.tables.update(
                addr as int,
                TableV {
                    tabletype: old(self)@.tables[addr as int].tabletype,
                    elem: old(self)@.tables[addr as int].elem.update(index as int, value),
                },
            ));
        }
        Result::Ok(())
    }

    /// The current element count of the table at `addr`, which must be
    /// live.
    pub fn table_size(&self, addr: Addr) -> (r: usize)
        requires
            addr < self@.tables.len(),
        ensures
            r == self@.tables[addr as int].elem.len(),
    {
        self.tables[addr].elem.len()
    }

    /// Grows the table at `addr` by `n` copies of `init`, returning the
    /// old size; fails when the new size would exceed the table type's
    /// maximum, or the absolute table bound.
    pub fn table_grow(&mut self, addr: Addr, n: u32, init: Ref) -> (r: Result<usize, Error>)
        ensures
            (if addr >= old(self)@.tables.len() {
                r == Result::<usize, Error>::Err(Error::UndefinedTable(addr)) && final(self)@
                    == old(self)@
            } else if !table_grow_fits(old(self)@.tables[addr as int], n) {
                r == Result::<usize, Error>::Err(
                    Error::InvalidLimit(old(self)@.tables[addr as int].tabletype.limits),
                ) && final(self)@ == old(self)@
            } else {
                &&& r == Result::<usize, Error>::Ok(old(self)@.tables[addr as int].elem.len() as usize)
                &&& final(self)@.tables == old(self)@.tables.update(
                    addr as int,
                    TableV {
                        tabletype: old(self)@.tables[addr as int].tabletype,
                        elem: old(self)@.tables[addr as int].elem + Seq::new(
                            n as nat,
                            |i: int| init,
                        ),
                    },
                )
                &&& final(self)@ == (StoreV { tables: final(self)@.tables, ..old(self)@ })
            }),
    {
        if addr >= self.tables.len() {
            return Result::Err(Error::UndefinedTable(addr));
        }
        let tabletype = self.tables[addr].tabletype;
        let size = self.tables[addr].elem.len();
        let new_size: u128 = size as u128 + n as u128;
        let fits = match tabletype.limits.max {
            Option::Some(max) => new_size <= max as u128 && new_size <= MAX_TABLE_SIZE as u128,
            Option::None => new_size <= MAX_TABLE_SIZE as u128,
        };
        if !fits {
            return Result::Err(Error::InvalidLimit(tabletype.limits));
        }
        let mut t = Table { tabletype, elem: Vec::new() };
        self.tables.set_and_swap(addr, &mut t);
        let mut elem = t.elem;
        let mut k: u32 = 0;
        while k < n
            invariant
                k <= n,
                elem@ == old(self)@.tables[addr as int].elem + Seq::new(k as nat, |i: int| init),
            decreases n - k,
        {
            elem.push(init);
            proof {
                assert(elem@ =~= old(self)@.tables[addr as int].elem + Seq::new(
                    (k + 1) as nat,
                    |i: int| init,
                ));
            }
            k += 1;
        }
        self.tables.set(addr, Table { tabletype, elem });
        proof {
            assert(final(self)@.tables =~= old(self)@.tables.update(
                addr as int,
                TableV {
                    tabletype: old(self)@.tables[addr as int].tabletype,
                    elem: old(self)@.tables[addr as int].elem + Seq::new(n as nat, |i: int| init),
                },
            ));
        }
        Result::Ok(size)
    }

    /// Appends a memory of `min` zeroed pages.  The memory type must obey
    /// the absolute page bound, and the byte length must be addressable on
    /// this machine.
    pub fn mem_alloc(&mut self, memtyp: types::Mem) -> (r: Result<Addr, Error>)
        ensures
            (if memtyp.limits.min > MAX_PAGES || memtyp.limits.min * PAGE_SIZE > usize::MAX {
                r == Result::<Addr, Error>::Err(Error::InvalidLimit(memtyp.limits)) && final(self)@
                    == old(self)@
            } else {
                &&& r == Result::<Addr, Error>::Ok(old(self)@.mems.len() as usize)
                &&& final(self)@.mems == old(self)@.mems.push(
                    MemV {
                        memtype: memtyp,
                        data: Seq::new((memtyp.limits.min * PAGE_SIZE) as nat, |i: int| 0u8),
                    },
                )
                &&& final(self)@ == (StoreV { mems: final(self)@.mems, ..old(self)@ })
                &&& store_extends(old(self)@, final(self)@)
            }),
    {
        if memtyp.limits.min > MAX_PAGES {
            return Result::Err(Error::InvalidLimit(memtyp.limits));
        }
        let bytes_wide: u64 = memtyp.limits.min as u64 * PAGE_SIZE as u64;
        if bytes_wide > usize::MAX as u64 {
            return Result::Err(Error::InvalidLimit(memtyp.limits));
        }
        let bytes: usize = bytes_wide as usize;
        let mut data: Vec<u8> = Vec::new();
        let mut i: usize = 0;
        while i < bytes
            invariant
                i <= bytes,
                data@ == Seq::new(i as nat, |j: int| 0u8),
            decreases bytes - i,
        {
            data.push(0);
            proof {
                assert(data@ =~= Seq::new((i + 1) as nat, |j: int| 0u8));
            }
            i += 1;
        }
        let r = self.mems.len();
        self.mems.push(Mem { memtype: memtyp, data });
        proof {
            assert(final(self)@.mems =~= old(self)@.mems.push(
                MemV {
                    memtype: memtyp,
                    data: Seq::new((memtyp.limits.min * PAGE_SIZE) as nat, |i: int| 0u8),
                },
            ));
        }
        Result::Ok(r)
    }

    /// The type of the memory at `addr`, which must be live.
    pub fn mem_type(&self, addr: Addr) -> (r: types::Mem)
        requires
            addr < self@.mems.len(),
        ensures
            r == self@.mems[addr as int].memtype,
    {
        self.mems[addr].memtype
    }

    /// The byte at `index` of the memory at `addr`, or the trap for an
    /// out-of-bounds access.
    pub fn mem_read(&self, addr: Addr, index: u32) -> (r: Result<u8, Error>)
        ensures
            r == (if addr >= self@.mems.len() {
                Result::<u8, Error>::Err(Error::UndefinedMem(addr))
            } else if index >= self@.mems[addr as int].data.len() {
                Result::<u8, Error>::Err(Error::OutOfBoundMemoryAccess)
            } else {
                Result::<u8, Error>::Ok(self@.mems[addr as int].data[index as int])
            }),
    {
        if addr >= self.mems.len() {
            return Result::Err(Error::UndefinedMem(addr));
        }
        if index as usize >= self.mems[addr].data.len() {
            return Result::Err(Error::OutOfBoundMemoryAccess);
        }
        Result::Ok(self.mems[addr].data[index as usize])
    }

    /// Writes the byte at `index` of the memory at `addr`, with the same
    /// bounds policy as `mem_read`.
    pub fn mem_write(&mut self, addr: Addr, index: u32, value: u8) -> (r: Result<(), Error>)
        ensures
            (if addr >= old(self)@.mems.len() {
                r == Result::<(), Error>::Err(Error::UndefinedMem(addr)) && final(self)@ == old(self)@
            } else if index >= old(self)@.mems[addr as int].data.len() {
                r == Result::<(), Error>::Err(Error::OutOfBoundMemoryAccess) && final(self)@
                    == old(self)@
            } else {
                &&& r == Result::<(), Error>::Ok(())
                &&& final(self)@.mems == old(self)@.mems.update(
                    addr as int,
                    MemV {
                        memtype: old(self)@.mems[addr as int].memtype,
                        data: old(self)@.mems[addr as int].data.update(index as int, value),
                    },
                )
                &&& final(self)@ == (StoreV { mems: final(self)@.mems, ..old(self)@ })
            }),
    {
        if addr >= self.mems.len() {
            return Result::Err(Error::UndefinedMem(addr));
        }
        if index as usize >= self.mems[addr].data.len() {
            return Result::Err(Error::OutOfBoundMemoryAccess);
        }
        let memtype = self.mems[addr].memtype;
        let mut m = Mem { memtype, data: Vec::new() };
        self.mems.set_and_swap(addr, &mut m);
        m.data.set(index as usize, value);
        self.mems.set(addr, m);
        proof {
            assert(final(self)@.mems =~= old(self)@.mems.update(
                addr as int,
                MemV {
                    memtype: old(self)@.mems[addr as int].memtype,
                    data: old(self)@.mems[addr as int].data.update(index as int, value),
                },
            ));
        }
        Result::Ok(())
    }

    /// The current page count of the memory at `addr`, which must be live
    /// and page-aligned.
    pub fn mem_size(&self, addr: Addr) -> (r: u32)
        requires
            addr < self@.mems.len(),
            self@.mems[addr as int].data.len() / PAGE_SIZE as nat <= u32::MAX,
        ensures
            r == self@.mems[addr as int].data.len() / PAGE_SIZE as nat,
    {
        (self.mems[addr].data.len() / PAGE_SIZE) as u32
    }

    /// Grows the memory at `addr` by `n` zeroed pages, returning the old
    /// page count; fails when the new page count would exceed the type's
    /// maximum, the absolute page bound, or the machine's address space.
    pub fn mem_grow(&mut self, addr: Addr, n: u32) -> (r: Result<usize, Error>)
        requires
            addr < old(self)@.mems.len(),
            old(self)@.mems[addr as int].data.len() % PAGE_SIZE as nat == 0,
            old(self)@.mems[addr as int].data.len() <= MAX_PAGES * PAGE_SIZE,
        ensures
            (if !mem_grow_fits(old(self)@.mems[addr as int], n) {
                r == Result::<usize, Error>::Err(
                    Error::InvalidLimit(old(self)@.mems[addr as int].memtype.limits),
                ) && final(self)@ == old(self)@
            } else {
                &&& r == Result::<usize, Error>::Ok(
                    (old(self)@.mems[addr as int].data.len() / PAGE_SIZE as nat) as usize,
                )
                &&& final(self)@.mems == old(self)@.mems.update(
                    addr as int,
                    MemV {
                        memtype: old(self)@.mems[addr as int].memtype,
                        data: old(self)@.mems[addr as int].data + Seq::new(
                            n as nat * PAGE_SIZE as nat,
                            |i: int| 0u8,
                        ),
                    },
                )
                &&& final(self)@ == (StoreV { mems: final(self)@.mems, ..old(self)@ })
            }),
    {
        let memtype = self.mems[addr].memtype;
        let cur_pages: usize = self.mems[addr].data.len() / PAGE_SIZE;
        let new_pages: u128 = cur_pages as u128 + n as u128;
        let fits = match memtype.limits.max {
            Option::Some(max) => new_pages <= max as u128 && new_pages <= MAX_PAGES as u128,
            Option::None => new_pages <= MAX_PAGES as u128,
        };
        if !fits {
            return Result::Err(Error::InvalidLimit(memtype.limits));
        }
        let extra_wide: u128 = n as u128 * PAGE_SIZE as u128;
        if extra_wide > usize::MAX as u128 - self.mems[addr].data.len() as u128 {
            return Result::Err(Error::InvalidLimit(memtype.limits));
        }
        let extra: usize = extra_wide as usize;
        let mut m = Mem { memtype, data: Vec::new() };
        self.mems.set_and_swap(addr, &mut m);
        let mut data = m.data;
        let ghost data0 = data@;
        let mut i: usize = 0;
        while i < extra
            invariant
                i <= extra,
                data@ == data0 + Seq::new(i as nat, |j: int| 0u8),
            decreases extra - i,
        {
            data.push(0);
            proof {
                assert(data@ =~= data0 + Seq::new((i + 1) as nat, |j: int| 0u8));
            }
            i += 1;
        }
        self.mems.set(addr, Mem { memtype, data });
        proof {
            assert(final(self)@.mems =~= old(self)@.mems.update(
                addr as int,
                MemV {
                    memtype: old(self)@.mems[addr as int].memtype,
                    data: old(self)@.mems[addr as int].data + Seq::new(
                        n as nat * PAGE_SIZE as nat,
                        |i: int| 0u8,
                    ),
                },
            ));
        }
        Result::Ok(cur_pages)
    }

    /// Appends a global of the given type; the initial value must carry
    /// the declared kind.
    pub fn global_alloc(&mut self, globtype: types::Global, value: Val) -> (r: Result<Addr, Error>)
        ensures
            (if kind_of(value) != globtype.val {
                r == Result::<Addr, Error>::Err(Error::TypeMismatch) && final(self)@ == old(self)@
            } else {
                &&& r == Result::<Addr, Error>::Ok(old(self)@.globals.len() as usize)
                &&& final(self)@.globals == old(self)@.globals.push(
                    Global { globaltype: globtype, value },
                )
                &&& final(self)@ == (StoreV { globals: final(self)@.globals, ..old(self)@ })
                &&& store_extends(old(self)@, final(self)@)
            }),
    {
        if value.kind() != globtype.val {
            return Result::Err(Error::TypeMismatch);
        }
        let r = self.globals.len();
        self.globals.push(Global { globaltype: globtype, value });
        Result::Ok(r)
    }

    /// The type of the global at `addr`, which must be live.
    pub fn global_type(&self, addr: Addr) -> (r: types::Global)
        requires
            addr < self@.globals.len(),
        ensures
            r == self@.globals[addr as int].globaltype,
    {
        self.globals[addr].globaltype
    }

    /// The current value of the global at `addr`.
    pub fn global_read(&self, addr: Addr) -> (r: Result<Val, Error>)
        ensures
            r == (if addr >= self@.globals.len() {
                Result::<Val, Error>::Err(Error::UndefinedGlobal(addr))
            } else {
                Result::<Val, Error>::Ok(self@.globals[addr as int].value)
            }),
    {
        if addr >= self.globals.len() {
            return Result::Err(Error::UndefinedGlobal(addr));
        }
        Result::Ok(self.globals[addr].value)
    }

    /// Replaces the value of the global at `addr`; fails on a dead
    /// address, on a `Const` global, and on a value of the wrong kind.
    pub fn global_write(&mut self, addr: Addr, value: Val) -> (r: Result<(), Error>)
        ensures
            (if addr >= old(self)@.globals.len() {
                r == Result::<(), Error>::Err(Error::UndefinedGlobal(addr)) && final(self)@ == old(self)@
            } else if !(old(self)@.globals[addr as int].globaltype.mutable matches types::Mut::Var) {
                r == Result::<(), Error>::Err(Error::ImmutableGlobal) && final(self)@ == old(self)@
            } else if kind_of(value) != old(self)@.globals[addr as int].globaltype.val {
                r == Result::<(), Error>::Err(Error::TypeMismatch) && final(self)@ == old(self)@
            } else {
                &&& r == Result::<(), Error>::Ok(())
                &&& final(self)@.globals == old(self)@.globals.update(
                    addr as int,
                    Global {
                        globaltype: old(self)@.globals[addr as int].globaltype,
                        value,
                    },
                )
                &&& final(self)@ == (StoreV { globals: final(self)@.globals, ..old(self)@ })
            }),
    {
        if addr >= self.globals.len() {
            return Result::Err(Error::UndefinedGlobal(addr));
        }
        let g = self.globals[addr];
        match g.globaltype.mutable {
            types::Mut::Const => {
                return Result::Err(Error::ImmutableGlobal);
            },
            types::Mut::Var => {},
        }
        if value.kind() != g.globaltype.val {
            return Result::Err(Error::TypeMismatch);
        }
        self.globals.set(addr, Global { globaltype: g.globaltype, value });
        Result::Ok(())
    }

    /// Invokes the function at `addr` with the given arguments, after
    /// checking their arity and kinds against the function's type; runs
    /// the interpreter to the result values or the trap.
    pub fn invoke(&mut self, addr: Addr, values: Vec<Val>) -> (r: Result<Vec<Val>, Error>)
        ensures
            (if addr >= old(self)@.funcinstances.len() {
                r == Result::<Vec<Val>, Error>::Err(Error::UndefinedFunction(addr)) && final(self)@
                    == old(self)@
            } else {
                match old(self)@.funcinstances[addr as int] {
                    FuncInstanceV::Host { .. } => r == Result::<Vec<Val>, Error>::Err(
                        Error::HostFunctionNotCallable,
                    ) && final(self)@ == old(self)@,
                    FuncInstanceV::Internal { functype, module, code } => {
                        if !args_match(values@, functype.input) {
                            r == Result::<Vec<Val>, Error>::Err(Error::TypeMismatch) && final(self)@ == old(self)@
                        } else {
                            let out = vm::run_spec(
                                old(self)@,
                                module,
                                functype.output.len(),
                                values@ + defaults_of(code.locals),
                                code.body,
                                0,
                                Seq::empty(),
                                CALL_DEPTH_LIMIT as nat,
                            );
                            &&& final(self)@ == out.store
                            &&& match r {
                                Result::Ok(v) => out.result == Result::<Seq<Val>, Error>::Ok(v@),
                                Result::Err(e) => out.result == Result::<Seq<Val>, Error>::Err(e),
                            }
                        }
                    },
                }
            }),
    {
        if addr >= self.funcinstances.len() {
            return Result::Err(Error::UndefinedFunction(addr));
        }
        let (n_out, cmod, body, decl_locals, intype) = match &self.funcinstances[addr] {
            FuncInstance::Host(_) => {
                return Result::Err(Error::HostFunctionNotCallable);
            },
            FuncInstance::Internal(f) => (
                f.functype.output.len(),
                f.module,
                modules::copy_instrs(&f.code.body),
                types::values_copy(&f.code.locals),
                types::values_copy(&f.functype.input),
            ),
        };
        if values.len() != intype.len() {
            return Result::Err(Error::TypeMismatch);
        }
        let mut i: usize = 0;
        while i < values.len()
            invariant
                i <= values@.len(),
                values@.len() == intype@.len(),
                self@ == old(self)@,
                addr < old(self)@.funcinstances.len(),
                old(self)@.funcinstances[addr as int] matches FuncInstanceV::Internal { .. },
                intype@ == old(self)@.funcinstances[addr as int].functype().input,
                forall|j: int| 0 <= j < i ==> kind_of(values@[j]) == intype@[j],
            decreases values.len() - i,
        {
            if values[i].kind() != intype[i] {
                proof {
                    assert(!args_match(values@, intype@));
                }
                return Result::Err(Error::TypeMismatch);
            }
            i += 1;
        }
        let mut locs = values;
        let ghost args = locs@;
        let mut k: usize = 0;
        while k < decl_locals.len()
            invariant
                k <= decl_locals@.len(),
                locs@ == args + defaults_of(decl_locals@.take(k as int)),
            decreases decl_locals.len() - k,
        {
            locs.push(Val::default_value(decl_locals[k]));
            proof {
                assert(defaults_of(decl_locals@.take(k + 1)) =~= defaults_of(
                    decl_locals@.take(k as int),
                ).push(default_of(decl_locals@[k as int])));
                assert(locs@ =~= args + defaults_of(decl_locals@.take(k + 1)));
            }
            k += 1;
        }
        proof {
            assert(decl_locals@.take(decl_locals@.len() as int) =~= decl_locals@);
        }
        let mut frame = Frame { arity: n_out, framestate: FrameState { locals: locs, module: cmod } };
        vm::run(self, &mut frame, &body)
    }
}

// ---------------------------------------------------------------------
// Instantiation.
// ---------------------------------------------------------------------

/// The kinds of an import descriptor and an external value agree.
pub open spec fn kind_match(desc: modules::ImportDesc, ev: ExternalVal) -> bool {
    match (desc, ev) {
        (modules::ImportDesc::Func(_), ExternalVal::Fun(_)) => true,
        (modules::ImportDesc::Table(_), ExternalVal::Table(_)) => true,
        (modules::ImportDesc::Mem(_), ExternalVal::Mem(_)) => true,
        (modules::ImportDesc::Global(_), ExternalVal::Global(_)) => true,
        _ => false,
    }
}

/// The external value's address denotes a live entry of its kind.
pub open spec fn extern_live(s: StoreV, ev: ExternalVal) -> bool {
    match ev {
        ExternalVal::Fun(a) => a < s.funcinstances.len(),
        ExternalVal::Table(a) => a < s.tables.len(),
        ExternalVal::Mem(a) => a < s.mems.len(),
        ExternalVal::Global(a) => a < s.globals.len(),
    }
}

/// The check one import undergoes: kind match, a live address, and a
/// subtype of the declared type (exact for functions and globals, limit
/// subtyping for tables and memories).
pub open spec fn check_import(
    s: StoreV,
    m: modules::ModuleV,
    desc: modules::ImportDesc,
    ev: ExternalVal,
) -> Option<Error> {
    match (desc, ev) {
        (modules::ImportDesc::Func(tyidx), ExternalVal::Fun(a)) => if a >= s.funcinstances.len() {
            Option::Some(Error::UndefinedFunction(a))
        } else if tyidx >= m.types.len() {
            Option::Some(Error::ModuleValidate)
        } else if s.funcinstances[a as int].functype().input != m.types[tyidx as int].input
            || s.funcinstances[a as int].functype().output != m.types[tyidx as int].output {
            Option::Some(Error::ImportTypeMismatch)
        } else {
            Option::None
        },
        (modules::ImportDesc::Table(tt), ExternalVal::Table(a)) => if a >= s.tables.len() {
            Option::Some(Error::UndefinedTable(a))
        } else if !limits_subtype(s.tables[a as int].tabletype.limits, tt.limits) {
            Option::Some(Error::ImportTypeMismatch)
        } else {
            Option::None
        },
        (modules::ImportDesc::Mem(mt), ExternalVal::Mem(a)) => if a >= s.mems.len() {
            Option::Some(Error::UndefinedMem(a))
        } else if !limits_subtype(s.mems[a as int].memtype.limits, mt.limits) {
            Option::Some(Error::ImportTypeMismatch)
        } else {
            Option::None
        },
        (modules::ImportDesc::Global(gt), ExternalVal::Global(a)) => if a >= s.globals.len() {
            Option::Some(Error::UndefinedGlobal(a))
        } else if s.globals[a as int].globaltype != gt {
            Option::Some(Error::ImportTypeMismatch)
        } else {
            Option::None
        },
        _ => Option::Some(Error::ImportTypeMismatch),
    }
}

/// The first import-check failure from position `i` on, if any.
pub open spec fn import_checks(
    s: StoreV,
    m: modules::ModuleV,
    ev: Seq<ExternalVal>,
    i: nat,
) -> Option<Error>
    decreases m.imports.len() - i,
{
    if i >= m.imports.len() {
        Option::None
    } else {
        match check_import(s, m, m.imports[i as int].desc, ev[i as int]) {
            Option::Some(e) => Option::Some(e),
            Option::None => import_checks(s, m, ev, i + 1),
        }
    }
}

/// The whole step-one check: the external vector's length, then each
/// import in order.
pub open spec fn import_check_all(s: StoreV, m: modules::ModuleV, ev: Seq<ExternalVal>) -> Option<
    Error,
> {
    if ev.len() != m.imports.len() {
        Option::Some(Error::ImportUnknown)
    } else {
        import_checks(s, m, ev, 0)
    }
}

/// The function addresses among the external values, in order.
pub open spec fn func_addrs_of(ev: Seq<ExternalVal>) -> Seq<Addr>
    decreases ev.len(),
{
    if ev.len() == 0 {
        Seq::empty()
    } else {
        match ev.last() {
            ExternalVal::Fun(a) => func_addrs_of(ev.drop_last()).push(a),
            _ => func_addrs_of(ev.drop_last()),
        }
    }
}

/// The table addresses among the external values, in order.
pub open spec fn table_addrs_of(ev: Seq<ExternalVal>) -> Seq<Addr>
    decreases ev.len(),
{
    if ev.len() == 0 {
        Seq::empty()
    } else {
        match ev.last() {
            ExternalVal::Table(a) => table_addrs_of(ev.drop_last()).push(a),
            _ => table_addrs_of(ev.drop_last()),
        }
    }
}

/// The memory addresses among the external values, in order.
pub open spec fn mem_addrs_of(ev: Seq<ExternalVal>) -> Seq<Addr>
    decreases ev.len(),
{
    if ev.len() == 0 {
        Seq::empty()
    } else {
        match ev.last() {
            ExternalVal::Mem(a) => mem_addrs_of(ev.drop_last()).push(a),
            _ => mem_addrs_of(ev.drop_last()),
        }
    }
}

/// The global addresses among the external values, in order.
pub open spec fn global_addrs_of(ev: Seq<ExternalVal>) -> Seq<Addr>
    decreases ev.len(),
{
    if ev.len() == 0 {
        Seq::empty()
    } else {
        match ev.last() {
            ExternalVal::Global(a) => global_addrs_of(ev.drop_last()).push(a),
            _ => global_addrs_of(ev.drop_last()),
        }
    }
}

/// How many imports of each kind a module declares: functions, tables,
/// memories, globals.
pub open spec fn count_imports(imps: Seq<modules::ImportV>) -> (nat, nat, nat, nat)
    decreases imps.len(),
{
    if imps.len() == 0 {
        (0, 0, 0, 0)
    } else {
        let (f, t, m, g) = count_imports(imps.drop_last());
        match imps.last().desc {
            modules::ImportDesc::Func(_) => (f + 1, t, m, g),
            modules::ImportDesc::Table(_) => (f, t + 1, m, g),
            modules::ImportDesc::Mem(_) => (f, t, m + 1, g),
            modules::ImportDesc::Global(_) => (f, t, m, g + 1),
        }
    }
}

/// The evaluation of a constant initializer expression: exactly one
/// constant, reference or imported-global-read instruction.
pub open spec fn const_eval(
    s: StoreV,
    funct: Seq<Addr>,
    gimp: Seq<Addr>,
    e: Seq<Instr>,
) -> Result<Val, Error> {
    if e.len() != 1 {
        Result::Err(Error::ModuleValidate)
    } else {
        match e[0] {
            Instr::I32Const(v) => Result::Ok(Val::Num(crate::runtime::Num::I32(v))),
            Instr::I64Const(v) => Result::Ok(Val::Num(crate::runtime::Num::I64(v))),
            Instr::F32Const(v) => Result::Ok(Val::Num(crate::runtime::Num::F32(v))),
            Instr::F64Const(v) => Result::Ok(Val::Num(crate::runtime::Num::F64(v))),
            Instr::RefNull(rt) => Result::Ok(Val::Ref(Ref::Null(rt))),
            Instr::RefFunc(fi) => if fi >= funct.len() {
                Result::Err(Error::ModuleValidate)
            } else {
                Result::Ok(Val::Ref(Ref::Func(funct[fi as int])))
            },
            Instr::GlobalGet(gi) => if gi >= gimp.len() {
                Result::Err(Error::ModuleValidate)
            } else if gimp[gi as int] >= s.globals.len() {
                Result::Err(Error::UndefinedGlobal(gimp[gi as int]))
            } else {
                Result::Ok(s.globals[gimp[gi as int] as int].value)
            },
            _ => Result::Err(Error::ModuleValidate),
        }
    }
}

/// Whether a constant initializer has an evaluable shape, given how many
/// functions and imported globals the instance will have.
pub open spec fn const_shape_ok(e: Seq<Instr>, n_funcs: nat, n_gimp: nat) -> bool {
    e.len() == 1 && match e[0] {
        Instr::I32Const(_) => true,
        Instr::I64Const(_) => true,
        Instr::F32Const(_) => true,
        Instr::F64Const(_) => true,
        Instr::RefNull(_) => true,
        Instr::RefFunc(fi) => fi < n_funcs,
        Instr::GlobalGet(gi) => gi < n_gimp,
        _ => false,
    }
}

/// Whether an element initializer has an evaluable reference shape.
pub open spec fn elem_init_ok(e: Seq<Instr>, n_funcs: nat) -> bool {
    e.len() == 1 && match e[0] {
        Instr::RefNull(_) => true,
        Instr::RefFunc(fi) => fi < n_funcs,
        _ => false,
    }
}

/// The reference an element initializer denotes.
pub open spec fn elem_init_ref(funct: Seq<Addr>, e: Seq<Instr>) -> Ref {
    match e[0] {
        Instr::RefNull(rt) => Ref::Null(rt),
        Instr::RefFunc(fi) => Ref::Func(funct[fi as int]),
        _ => Ref::Null(types::Ref::Func),
    }
}

/// Whether an offset initializer has an evaluable 32-bit shape.
pub open spec fn offset_shape_ok(e: Seq<Instr>, n_gimp: nat) -> bool {
    e.len() == 1 && match e[0] {
        Instr::I32Const(_) => true,
        Instr::GlobalGet(gi) => gi < n_gimp,
        _ => false,
    }
}

/// Whether an element segment's mode is well-placed: an active segment
/// names a table in range and carries an evaluable offset.
pub open spec fn elem_mode_ok(m: modules::ModuleV, mode: modules::ElemModeV) -> bool {
    match mode {
        modules::ElemModeV::Active(tidx, off) => tidx < count_imports(m.imports).1
            + m.tables.len() && offset_shape_ok(off, count_imports(m.imports).3),
        _ => true,
    }
}

/// Whether a data segment's mode is well-placed.
pub open spec fn data_mode_ok(m: modules::ModuleV, mode: modules::DataModeV) -> bool {
    match mode {
        modules::DataModeV::Active(midx, off) => midx < count_imports(m.imports).2 + m.mems.len()
            && offset_shape_ok(off, count_imports(m.imports).3),
        modules::DataModeV::Passive => true,
    }
}

/// Whether an export descriptor's index lies inside its index space.
pub open spec fn export_desc_ok(m: modules::ModuleV, desc: modules::ExportDesc) -> bool {
    let (fi, ti, mi, gi) = count_imports(m.imports);
    match desc {
        modules::ExportDesc::Func(i) => i < fi + m.funcs.len(),
        modules::ExportDesc::Table(i) => i < ti + m.tables.len(),
        modules::ExportDesc::Mem(i) => i < mi + m.mems.len(),
        modules::ExportDesc::Global(i) => i < gi + m.globals.len(),
    }
}

/// The static shape a module must have before it can be instantiated:
/// what a validator proves.
pub open spec fn module_shape_ok(m: modules::ModuleV) -> bool {
    let (fi, ti, mi, gi) = count_imports(m.imports);
    let n_funcs = fi + m.funcs.len();
    &&& forall|k: int| 0 <= k < m.funcs.len() ==> (#[trigger] m.funcs[k]).functype < m.types.len()
    &&& forall|k: int| 0 <= k < m.tables.len() ==> limits_in(
        (#[trigger] m.tables[k]).limits,
        MAX_TABLE_SIZE as nat,
    )
    &&& forall|k: int| 0 <= k < m.mems.len() ==> limits_in(
        (#[trigger] m.mems[k]).limits,
        MAX_PAGES as nat,
    ) && m.mems[k].limits.min * PAGE_SIZE <= usize::MAX
    &&& forall|k: int| 0 <= k < m.globals.len() ==> const_shape_ok(
        (#[trigger] m.globals[k]).init,
        n_funcs,
        gi,
    )
    &&& forall|k: int| 0 <= k < m.elems.len() ==> elem_mode_ok(m, (#[trigger] m.elems[k]).mode)
        && forall|j: int| 0 <= j < m.elems[k].init.len() ==> elem_init_ok(
        #[trigger] m.elems[k].init[j],
        n_funcs,
    )
    &&& forall|k: int| 0 <= k < m.datas.len() ==> data_mode_ok(m, (#[trigger] m.datas[k]).mode)
    &&& forall|k: int| 0 <= k < m.exports.len() ==> export_desc_ok(m, (#[trigger] m.exports[k]).desc)
    &&& forall|k: int, j: int| 0 <= j < k < m.exports.len() ==> (#[trigger] m.exports[k]).name != (
    #[trigger] m.exports[j]).name
    &&& match m.start {
        Option::None => true,
        Option::Some(si) => si < n_funcs,
    }
}

/// Limits that fit under a cap: well-ordered and bounded.
pub open spec fn limits_in(l: types::Limits, cap: nat) -> bool {
    &&& l.min <= cap
    &&& match l.max {
        Option::None => true,
        Option::Some(mx) => l.min <= mx && mx <= cap,
    }
}

/// The directory the fresh instance will have, before it is pushed into
/// the store.
pub open spec fn instance_of(
    s0: StoreV,
    m: modules::ModuleV,
    fa: Seq<Addr>,
    ta: Seq<Addr>,
    ma: Seq<Addr>,
    ga: Seq<Addr>,
) -> ModuleInstanceV {
    let funct = fa + Seq::new(m.funcs.len(), |k: int| (s0.funcinstances.len() + k) as usize);
    ModuleInstanceV {
        types: m.types,
        funct,
        tables: ta + Seq::new(m.tables.len(), |k: int| (s0.tables.len() + k) as usize),
        mems: ma + Seq::new(m.mems.len(), |k: int| (s0.mems.len() + k) as usize),
        globals: ga + Seq::new(m.globals.len(), |k: int| (s0.globals.len() + k) as usize),
        elems: Seq::new(m.elems.len(), |k: int| (s0.elems.len() + k) as usize),
        datas: Seq::new(m.datas.len(), |k: int| (s0.datas.len() + k) as usize),
        exports: Seq::new(
            m.exports.len(),
            |k: int| ExportV {
                name: m.exports[k].name,
                value: export_value_of(
                    funct,
                    ta + Seq::new(m.tables.len(), |j: int| (s0.tables.len() + j) as usize),
                    ma + Seq::new(m.mems.len(), |j: int| (s0.mems.len() + j) as usize),
                    ga + Seq::new(m.globals.len(), |j: int| (s0.globals.len() + j) as usize),
                    m.exports[k].desc,
                ),
            },
        ),
    }
}

/// The external value an export descriptor resolves to.
pub open spec fn export_value_of(
    funct: Seq<Addr>,
    tables: Seq<Addr>,
    mems: Seq<Addr>,
    globals: Seq<Addr>,
    desc: modules::ExportDesc,
) -> ExternalVal {
    match desc {
        modules::ExportDesc::Func(i) => ExternalVal::Fun(funct[i as int]),
        modules::ExportDesc::Table(i) => ExternalVal::Table(tables[i as int]),
        modules::ExportDesc::Mem(i) => ExternalVal::Mem(mems[i as int]),
        modules::ExportDesc::Global(i) => ExternalVal::Global(globals[i as int]),
    }
}

/// The store after allocating a module's own objects and pushing the
/// fresh instance: steps three and four of the instantiation protocol.
pub open spec fn alloc_store(
    s0: StoreV,
    m: modules::ModuleV,
    fa: Seq<Addr>,
    ta: Seq<Addr>,
    ma: Seq<Addr>,
    ga: Seq<Addr>,
) -> StoreV {
    let inst = instance_of(s0, m, fa, ta, ma, ga);
    StoreV {
        modules: s0.modules.push(inst),
        funcinstances: s0.funcinstances + Seq::new(
            m.funcs.len(),
            |k: int| FuncInstanceV::Internal {
                functype: m.types[m.funcs[k].functype as int],
                module: s0.modules.len() as usize,
                code: m.funcs[k],
            },
        ),
        tables: s0.tables + Seq::new(
            m.tables.len(),
            |k: int| TableV {
                tabletype: m.tables[k],
                elem: Seq::new(m.tables[k].limits.min as nat, |i: int| Ref::Null(types::Ref::Func)),
            },
        ),
        mems: s0.mems + Seq::new(
            m.mems.len(),
            |k: int| MemV {
                memtype: m.mems[k],
                data: Seq::new((m.mems[k].limits.min * PAGE_SIZE) as nat, |i: int| 0u8),
            },
        ),
        globals: s0.globals + Seq::new(
            m.globals.len(),
            |k: int| Global {
                globaltype: m.globals[k].globaltype,
                value: const_eval(s0, inst.funct, ga, m.globals[k].init)->Ok_0,
            },
        ),
        elems: s0.elems + Seq::new(
            m.elems.len(),
            |k: int| ElemV {
                elemtype: m.elems[k].elemtype,
                elem: Seq::new(
                    m.elems[k].init.len(),
                    |j: int| elem_init_ref(inst.funct, m.elems[k].init[j]),
                ),
            },
        ),
        datas: s0.datas + Seq::new(m.datas.len(), |k: int| DataV { data: m.datas[k].init }),
    }
}

/// A sequence with `xs` written over the range starting at `d`.
pub open spec fn splice<T>(s: Seq<T>, d: int, xs: Seq<T>) -> Seq<T> {
    s.take(d) + xs + s.skip(d + xs.len())
}

/// Applying the active element segments from index `k` on: each one's
/// offset is evaluated, its references are copied into the designated
/// table after a bounds check, and the segment is dropped.  A failing
/// bounds check stops with the trap; the segments already applied stay
/// committed.
pub open spec fn apply_elems(
    s: StoreV,
    inst: ModuleInstanceV,
    m: modules::ModuleV,
    gimp: Seq<Addr>,
    k: nat,
) -> (StoreV, Option<Error>)
    decreases m.elems.len() - k,
{
    if k >= m.elems.len() {
        (s, Option::None)
    } else {
        match m.elems[k as int].mode {
            modules::ElemModeV::Active(tidx, off) => {
                if tidx >= inst.tables.len() {
                    (s, Option::Some(Error::UndefinedTable(tidx)))
                } else {
                    let ta = inst.tables[tidx as int];
                    if ta >= s.tables.len() {
                        (s, Option::Some(Error::UndefinedTable(ta)))
                    } else if k >= inst.elems.len() || inst.elems[k as int] >= s.elems.len() {
                        (s, Option::Some(Error::ModuleValidate))
                    } else {
                        match const_eval(s, inst.funct, gimp, off) {
                            Result::Err(e) => (s, Option::Some(e)),
                            Result::Ok(Val::Num(crate::runtime::Num::I32(d))) => {
                                let ea = inst.elems[k as int];
                                let refs = s.elems[ea as int].elem;
                                if d + refs.len() > s.tables[ta as int].elem.len() {
                                    (s, Option::Some(Error::OutOfBoundTableAccess))
                                } else {
                                    let s2 = StoreV {
                                        tables: s.tables.update(
                                            ta as int,
                                            TableV {
                                                tabletype: s.tables[ta as int].tabletype,
                                                elem: splice(
                                                    s.tables[ta as int].elem,
                                                    d as int,
                                                    refs,
                                                ),
                                            },
                                        ),
                                        elems: s.elems.update(
                                            ea as int,
                                            ElemV {
                                                elemtype: s.elems[ea as int].elemtype,
                                                elem: Seq::empty(),
                                            },
                                        ),
                                        ..s
                                    };
                                    apply_elems(s2, inst, m, gimp, k + 1)
                                }
                            },
                            Result::Ok(_) => (s, Option::Some(Error::TypeMismatch)),
                        }
                    }
                }
            },
            _ => apply_elems(s, inst, m, gimp, k + 1),
        }
    }
}

/// Applying the active data segments from index `k` on, analogously to
/// `apply_elems`: bytes are copied into the designated memory and the
/// segment is dropped.
pub open spec fn apply_datas(
    s: StoreV,
    inst: ModuleInstanceV,
    m: modules::ModuleV,
    gimp: Seq<Addr>,
    k: nat,
) -> (StoreV, Option<Error>)
    decreases m.datas.len() - k,
{
    if k >= m.datas.len() {
        (s, Option::None)
    } else {
        match m.datas[k as int].mode {
            modules::DataModeV::Active(midx, off) => {
                if midx >= inst.mems.len() {
                    (s, Option::Some(Error::UndefinedMem(midx)))
                } else {
                    let ma = inst.mems[midx as int];
                    if ma >= s.mems.len() {
                        (s, Option::Some(Error::UndefinedMem(ma)))
                    } else if k >= inst.datas.len() || inst.datas[k as int] >= s.datas.len() {
                        (s, Option::Some(Error::ModuleValidate))
                    } else {
                        match const_eval(s, inst.funct, gimp, off) {
                            Result::Err(e) => (s, Option::Some(e)),
                            Result::Ok(Val::Num(crate::runtime::Num::I32(d))) => {
                                let da = inst.datas[k as int];
                                let bytes = s.datas[da as int].data;
                                if d + bytes.len() > s.mems[ma as int].data.len() {
                                    (s, Option::Some(Error::OutOfBoundMemoryAccess))
                                } else {
                                    let s2 = StoreV {
                                        mems: s.mems.update(
                                            ma as int,
                                            MemV {
                                                memtype: s.mems[ma as int].memtype,
                                                data: splice(
                                                    s.mems[ma as int].data,
                                                    d as int,
                                                    bytes,
                                                ),
                                            },
                                        ),
                                        datas: s.datas.update(
                                            da as int,
                                            DataV { data: Seq::empty() },
                                        ),
                                        ..s
                                    };
                                    apply_datas(s2, inst, m, gimp, k + 1)
                                }
                            },
                            Result::Ok(_) => (s, Option::Some(Error::TypeMismatch)),
                        }
                    }
                }
            },
            modules::DataModeV::Passive => apply_datas(s, inst, m, gimp, k + 1),
        }
    }
}

/// Applying element segments rewrites only tables and element segments.
proof fn lemma_apply_elems_frame(
    s: StoreV,
    inst: ModuleInstanceV,
    m: modules::ModuleV,
    gimp: Seq<Addr>,
    k: nat,
)
    ensures
        ({
            let out = apply_elems(s, inst, m, gimp, k);
            &&& out.0.modules == s.modules
            &&& out.0.funcinstances == s.funcinstances
            &&& out.0.mems == s.mems
            &&& out.0.globals == s.globals
            &&& out.0.datas == s.datas
            &&& out.0.tables.len() == s.tables.len()
            &&& out.0.elems.len() == s.elems.len()
        }),
    decreases m.elems.len() - k,
{
    if k < m.elems.len() {
        match m.elems[k as int].mode {
            modules::ElemModeV::Active(tidx, off) => {
                if tidx < inst.tables.len() {
                    let ta = inst.tables[tidx as int];
                    if ta < s.tables.len() && k < inst.elems.len() && inst.elems[k as int]
                        < s.elems.len() {
                        match const_eval(s, inst.funct, gimp, off) {
                            Result::Ok(Val::Num(crate::runtime::Num::I32(d))) => {
                                let ea = inst.elems[k as int];
                                let refs = s.elems[ea as int].elem;
                                if d + refs.len() <= s.tables[ta as int].elem.len() {
                                    let s2 = StoreV {
                                        tables: s.tables.update(
                                            ta as int,
                                            TableV {
                                                tabletype: s.tables[ta as int].tabletype,
                                                elem: splice(
                                                    s.tables[ta as int].elem,
                                                    d as int,
                                                    refs,
                                                ),
                                            },
                                        ),
                                        elems: s.elems.update(
                                            ea as int,
                                            ElemV {
                                                elemtype: s.elems[ea as int].elemtype,
                                                elem: Seq::empty(),
                                            },
                                        ),
                                        ..s
                                    };
                                    lemma_apply_elems_frame(s2, inst, m, gimp, k + 1);
                                }
                            },
                            _ => {},
                        }
                    }
                }
            },
            _ => {
                lemma_apply_elems_frame(s, inst, m, gimp, k + 1);
            },
        }
    }
}

/// Applying data segments rewrites only memories and data segments.
proof fn lemma_apply_datas_frame(
    s: StoreV,
    inst: ModuleInstanceV,
    m: modules::ModuleV,
    gimp: Seq<Addr>,
    k: nat,
)
    ensures
        ({
            let out = apply_datas(s, inst, m, gimp, k);
            &&& out.0.modules == s.modules
            &&& out.0.funcinstances == s.funcinstances
            &&& out.0.tables == s.tables
            &&& out.0.globals == s.globals
            &&& out.0.elems == s.elems
            &&& out.0.mems.len() == s.mems.len()
            &&& out.0.datas.len() == s.datas.len()
        }),
    decreases m.datas.len() - k,
{
    if k < m.datas.len() {
        match m.datas[k as int].mode {
            modules::DataModeV::Active(midx, off) => {
                if midx < inst.mems.len() {
                    let ma = inst.mems[midx as int];
                    if ma < s.mems.len() && k < inst.datas.len() && inst.datas[k as int]
                        < s.datas.len() {
                        match const_eval(s, inst.funct, gimp, off) {
                            Result::Ok(Val::Num(crate::runtime::Num::I32(d))) => {
                                let da = inst.datas[k as int];
                                let bytes = s.datas[da as int].data;
                                if d + bytes.len() <= s.mems[ma as int].data.len() {
                                    let s2 = StoreV {
                                        mems: s.mems.update(
                                            ma as int,
                                            MemV {
                                                memtype: s.mems[ma as int].memtype,
                                                data: splice(
                                                    s.mems[ma as int].data,
                                                    d as int,
                                                    bytes,
                                                ),
                                            },
                                        ),
                                        datas: s.datas.update(
                                            da as int,
                                            DataV { data: Seq::empty() },
                                        ),
                                        ..s
                                    };
                                    lemma_apply_datas_frame(s2, inst, m, gimp, k + 1);
                                }
                            },
                            _ => {},
                        }
                    }
                }
            },
            modules::DataModeV::Passive => {
                lemma_apply_datas_frame(s, inst, m, gimp, k + 1);
            },
        }
    }
}

/// The first export with the given name, front to back.
pub open spec fn find_export(exports: Seq<ExportV>, name: Seq<char>) -> Option<ExternalVal>
    decreases exports.len(),
{
    if exports.len() == 0 {
        Option::None
    } else if exports[0].name == name {
        Option::Some(exports[0].value)
    } else {
        find_export(exports.drop_first(), name)
    }
}

/// A module instance can resolve exports by name and be created inside a
/// store by instantiation.
pub trait Instanciable: Sized {
    /// Looks a name up in the export table.
    fn export(&self, name: &String) -> (r: Result<ExternalVal, Error>);

    /// Instantiates a validated module against the store, resolving its
    /// imports with the given external values; returns the address of the
    /// fresh module instance.
    fn instanciate(store: &mut Store, module: &Module, externvals: Vec<ExternalVal>) -> (r: Result<
        Addr,
        Error,
    >);
}

impl Instanciable for ModuleInstance {
    /// Looks a name up in the export table: the first export so named, or
    /// `ModuleInstanceExportNotFound`.
    #[verifier::loop_isolation(false)]
    fn export(&self, name: &String) -> (r: Result<ExternalVal, Error>)
        ensures
            match find_export(self@.exports, name@) {
                Option::Some(v) => r == Result::<ExternalVal, Error>::Ok(v),
                Option::None => r matches Result::Err(Error::ModuleInstanceExportNotFound(n))
                    && n@ == name@,
            },
    {
        proof {
            assert(self@.exports.skip(0) =~= self@.exports);
        }
        let mut i: usize = 0;
        while i < self.exports.len()
            invariant
                i <= self.exports@.len(),
                find_export(self@.exports, name@) == find_export(
                    self@.exports.skip(i as int),
                    name@,
                ),
            decreases self.exports.len() - i,
        {
            if self.exports[i].name == *name {
                proof {
                    assert(self@.exports.skip(i as int)[0] == self@.exports[i as int]);
                }
                return Result::Ok(self.exports[i].value);
            }
            proof {
                assert(self@.exports.skip(i as int)[0] == self@.exports[i as int]);
                assert(self@.exports.skip(i as int).drop_first() =~= self@.exports.skip(i + 1));
            }
            i += 1;
        }
        Result::Err(Error::ModuleInstanceExportNotFound(name.clone()))
    }

    /// Instantiates a validated module: checks the shape, checks each
    /// import, allocates the module's own objects, wires the exports, and
    /// runs the start function if one is declared.
    fn instanciate(store: &mut Store, module: &Module, externvals: Vec<ExternalVal>) -> (r: Result<
        Addr,
        Error,
    >)
        ensures
            (if !module_shape_ok(module@) {
                r == Result::<Addr, Error>::Err(Error::ModuleValidate) && final(store)@ == old(store)@
            } else {
                match import_check_all(old(store)@, module@, externvals@) {
                    Option::Some(e) => r == Result::<Addr, Error>::Err(e) && final(store)@ == old(store)@,
                    Option::None => ({
                        let s1 = alloc_store(
                            old(store)@,
                            module@,
                            func_addrs_of(externvals@),
                            table_addrs_of(externvals@),
                            mem_addrs_of(externvals@),
                            global_addrs_of(externvals@),
                        );
                        let inst = instance_of(
                            old(store)@,
                            module@,
                            func_addrs_of(externvals@),
                            table_addrs_of(externvals@),
                            mem_addrs_of(externvals@),
                            global_addrs_of(externvals@),
                        );
                        let ae = apply_elems(s1, inst, module@, global_addrs_of(externvals@), 0);
                        match ae.1 {
                            Option::Some(e) => r == Result::<Addr, Error>::Err(e) && final(store)@ == ae.0,
                            Option::None => ({
                                let ad = apply_datas(
                                    ae.0,
                                    inst,
                                    module@,
                                    global_addrs_of(externvals@),
                                    0,
                                );
                                match ad.1 {
                                    Option::Some(e) => r == Result::<Addr, Error>::Err(e)
                                        && final(store)@ == ad.0,
                                    Option::None => match module@.start {
                                        Option::None => r == Result::<Addr, Error>::Ok(
                                            old(store)@.modules.len() as usize,
                                        ) && final(store)@ == ad.0,
                                        Option::Some(si) => ({
                                            let c = vm::invoke_spec(
                                                ad.0,
                                                inst.funct[si as int],
                                                Seq::empty(),
                                                CALL_DEPTH_LIMIT as nat,
                                            );
                                            match c.err {
                                                Option::Some(e) => r == Result::<Addr, Error>::Err(
                                                    e,
                                                ) && final(store)@ == c.store,
                                                Option::None => r == Result::<Addr, Error>::Ok(
                                                    old(store)@.modules.len() as usize,
                                                ) && final(store)@ == c.store,
                                            }
                                        }),
                                    },
                                }
                            }),
                        }
                    }),
                }
            }),
    {
        if let Option::Some(e) = shape_check(module) {
            return Result::Err(e);
        }
        if let Option::Some(e) = check_imports(store, module, &externvals) {
            return Result::Err(e);
        }
        proof {
            lemma_import_checks_props(store@, module@, externvals@, 0);
            assert forall|j: int| 0 <= j < externvals@.len() implies extern_live(
                store@,
                #[trigger] externvals@[j],
            ) by {
                assert(kind_match(module@.imports[j].desc, externvals@[j]) && extern_live(
                    store@,
                    externvals@[j],
                ));
            }
            lemma_addr_split_lens(externvals@, module@.imports);
            lemma_addr_split_live(store@, externvals@);
        }
        let (fa, ta, ma, ga) = split_externvals(&externvals);
        let gimp = copy_addrs(&ga);
        let inst_addr = alloc_module(store, module, fa, ta, ma, ga);
        let ghost inst = instance_of(
            old(store)@,
            module@,
            func_addrs_of(externvals@),
            table_addrs_of(externvals@),
            mem_addrs_of(externvals@),
            global_addrs_of(externvals@),
        );
        proof {
            assert(store@.modules[inst_addr as int] == inst);
            lemma_apply_elems_frame(store@, inst, module@, gimp@, 0);
        }
        if let Option::Some(e) = apply_elem_segments(store, module, inst_addr, &gimp) {
            return Result::Err(e);
        }
        proof {
            assert(store@.modules[inst_addr as int] == inst);
            lemma_apply_datas_frame(store@, inst, module@, gimp@, 0);
        }
        if let Option::Some(e) = apply_data_segments(store, module, inst_addr, &gimp) {
            return Result::Err(e);
        }
        proof {
            assert(store@.modules[inst_addr as int] == inst);
            assert(store@.modules.len() == old(store)@.modules.len() + 1);
        }
        match module.start {
            Option::None => Result::Ok(inst_addr),
            Option::Some(si) => {
                proof {
                    assert(inst_addr < store.modules@.len());
                    assert(inst.funct.len() == func_addrs_of(externvals@).len()
                        + module@.funcs.len());
                    assert(si < inst.funct.len());
                    assert(store.modules@[inst_addr as int]@ == inst);
                }
                let faddr = store.modules[inst_addr].funct[si];
                let mut start_stack: Vec<Val> = Vec::new();
                match vm::call_function(store, faddr, &mut start_stack, CALL_DEPTH_LIMIT) {
                    Result::Ok(()) => Result::Ok(inst_addr),
                    Result::Err(e) => Result::Err(e),
                }
            },
        }
    }
}

/// Whether an external value carries the kind an export descriptor
/// advertises.
pub open spec fn export_kind_matches(v: ExternalVal, d: modules::ExportDesc) -> bool {
    match (v, d) {
        (ExternalVal::Fun(_), modules::ExportDesc::Func(_)) => true,
        (ExternalVal::Table(_), modules::ExportDesc::Table(_)) => true,
        (ExternalVal::Mem(_), modules::ExportDesc::Mem(_)) => true,
        (ExternalVal::Global(_), modules::ExportDesc::Global(_)) => true,
        _ => false,
    }
}

/// Name lookup finds exactly the export at `k` when no earlier export
/// shares its name.
proof fn lemma_find_export_at(exports: Seq<ExportV>, name: Seq<char>, k: int)
    requires
        0 <= k < exports.len(),
        exports[k].name == name,
        forall|j: int| 0 <= j < k ==> (#[trigger] exports[j]).name != name,
    ensures
        find_export(exports, name) == Option::Some(exports[k].value),
    decreases k,
{
    if k == 0 {
    } else {
        assert(exports[0].name != name);
        assert(forall|j: int| 0 <= j < k - 1 ==> (#[trigger] exports.drop_first()[j]).name
            != name);
        lemma_find_export_at(exports.drop_first(), name, k - 1);
    }
}

/// Law: export roundtrip.  After a successful instantiation, looking up
/// any declared export by name yields exactly that export's external
/// value; its kind is the declared kind, and its address is live in the
/// grown store.
pub proof fn lemma_export_roundtrip(s0: StoreV, m: modules::ModuleV, ev: Seq<ExternalVal>, k: int)
    requires
        module_shape_ok(m),
        import_check_all(s0, m, ev) matches Option::None,
        0 <= k < m.exports.len(),
    ensures
        ({
            let inst = instance_of(
                s0,
                m,
                func_addrs_of(ev),
                table_addrs_of(ev),
                mem_addrs_of(ev),
                global_addrs_of(ev),
            );
            let s1 = alloc_store(
                s0,
                m,
                func_addrs_of(ev),
                table_addrs_of(ev),
                mem_addrs_of(ev),
                global_addrs_of(ev),
            );
            &&& find_export(inst.exports, m.exports[k].name) == Option::Some(
                inst.exports[k].value,
            )
            &&& export_kind_matches(inst.exports[k].value, m.exports[k].desc)
            &&& extern_live(s1, inst.exports[k].value)
        }),
{
    let inst = instance_of(
        s0,
        m,
        func_addrs_of(ev),
        table_addrs_of(ev),
        mem_addrs_of(ev),
        global_addrs_of(ev),
    );
    let s1 = alloc_store(
        s0,
        m,
        func_addrs_of(ev),
        table_addrs_of(ev),
        mem_addrs_of(ev),
        global_addrs_of(ev),
    );
    lemma_import_checks_props(s0, m, ev, 0);
    assert forall|j: int| 0 <= j < ev.len() implies extern_live(s0, #[trigger] ev[j]) by {
        assert(kind_match(m.imports[j].desc, ev[j]) && extern_live(s0, ev[j]));
    }
    lemma_addr_split_lens(ev, m.imports);
    lemma_addr_split_live(s0, ev);
    assert(inst.exports[k].name == m.exports[k].name);
    assert forall|j: int| 0 <= j < k implies (#[trigger] inst.exports[j]).name
        != m.exports[k].name by {
        assert(inst.exports[j].name == m.exports[j].name);
        assert(m.exports[k].name != m.exports[j].name);
    }
    lemma_find_export_at(inst.exports, m.exports[k].name, k);
    assert(export_desc_ok(m, m.exports[k].desc));
    assert(inst.exports[k].value == export_value_of(
        inst.funct,
        inst.tables,
        inst.mems,
        inst.globals,
        m.exports[k].desc,
    ));
}

/// Import checks that pass leave every import kind-matched and live.
proof fn lemma_import_checks_props(s: StoreV, m: modules::ModuleV, ev: Seq<ExternalVal>, i: nat)
    requires
        ev.len() == m.imports.len(),
        import_checks(s, m, ev, i) matches Option::None,
    ensures
        forall|j: int| i <= j < m.imports.len() ==> kind_match(
            (#[trigger] m.imports[j]).desc,
            ev[j],
        ) && extern_live(s, ev[j]),
    decreases m.imports.len() - i,
{
    if i < m.imports.len() {
        lemma_import_checks_props(s, m, ev, i + 1);
    }
}

/// With kinds matched pairwise, the split external vector has exactly as
/// many addresses of each kind as the module imports.
proof fn lemma_addr_split_lens(ev: Seq<ExternalVal>, imps: Seq<modules::ImportV>)
    requires
        ev.len() == imps.len(),
        forall|j: int| 0 <= j < imps.len() ==> kind_match((#[trigger] imps[j]).desc, ev[j]),
    ensures
        func_addrs_of(ev).len() == count_imports(imps).0,
        table_addrs_of(ev).len() == count_imports(imps).1,
        mem_addrs_of(ev).len() == count_imports(imps).2,
        global_addrs_of(ev).len() == count_imports(imps).3,
    decreases ev.len(),
{
    if ev.len() > 0 {
        assert(forall|j: int| 0 <= j < imps.drop_last().len() ==> kind_match(
            (#[trigger] imps.drop_last()[j]).desc,
            ev.drop_last()[j],
        ));
        lemma_addr_split_lens(ev.drop_last(), imps.drop_last());
    }
}

/// Live external values split into live addresses.
proof fn lemma_addr_split_live(s: StoreV, ev: Seq<ExternalVal>)
    requires
        forall|j: int| 0 <= j < ev.len() ==> extern_live(s, #[trigger] ev[j]),
    ensures
        forall|j: int| 0 <= j < func_addrs_of(ev).len() ==> #[trigger] func_addrs_of(ev)[j]
            < s.funcinstances.len(),
        forall|j: int| 0 <= j < table_addrs_of(ev).len() ==> #[trigger] table_addrs_of(ev)[j]
            < s.tables.len(),
        forall|j: int| 0 <= j < mem_addrs_of(ev).len() ==> #[trigger] mem_addrs_of(ev)[j]
            < s.mems.len(),
        forall|j: int| 0 <= j < global_addrs_of(ev).len() ==> #[trigger] global_addrs_of(ev)[j]
            < s.globals.len(),
    decreases ev.len(),
{
    if ev.len() > 0 {
        assert(forall|j: int| 0 <= j < ev.drop_last().len() ==> extern_live(
            s,
            #[trigger] ev.drop_last()[j],
        ));
        lemma_addr_split_live(s, ev.drop_last());
        assert(extern_live(s, ev[ev.len() - 1]));
        assert forall|j: int| 0 <= j < func_addrs_of(ev).len() implies #[trigger] func_addrs_of(
            ev,
        )[j] < s.funcinstances.len() by {
            if j < func_addrs_of(ev.drop_last()).len() {
            }
        }
        assert forall|j: int| 0 <= j < table_addrs_of(ev).len() implies #[trigger] table_addrs_of(
            ev,
        )[j] < s.tables.len() by {
            if j < table_addrs_of(ev.drop_last()).len() {
            }
        }
        assert forall|j: int| 0 <= j < mem_addrs_of(ev).len() implies #[trigger] mem_addrs_of(
            ev,
        )[j] < s.mems.len() by {
            if j < mem_addrs_of(ev.drop_last()).len() {
            }
        }
        assert forall|j: int| 0 <= j < global_addrs_of(ev).len() implies #[trigger] global_addrs_of(
            ev,
        )[j] < s.globals.len() by {
            if j < global_addrs_of(ev.drop_last()).len() {
            }
        }
    }
}

/// Constant evaluation reads only the store's globals.
proof fn lemma_const_eval_globals(
    s1: StoreV,
    s2: StoreV,
    funct: Seq<Addr>,
    gimp: Seq<Addr>,
    e: Seq<Instr>,
)
    requires
        s1.globals == s2.globals,
    ensures
        const_eval(s1, funct, gimp, e) == const_eval(s2, funct, gimp, e),
{
}

/// Checks a module's static shape, exactly as `module_shape_ok` states
/// it.
#[verifier::loop_isolation(false)]
fn shape_check(module: &Module) -> (r: Option<Error>)
    ensures
        r == (if module_shape_ok(module@) {
            Option::<Error>::None
        } else {
            Option::Some(Error::ModuleValidate)
        }),
{
    let (fi, ti, mi, gi) = count_import_kinds(module);
    let n_funcs: u128 = fi as u128 + module.funcs.len() as u128;
    let mut k: usize = 0;
    while k < module.funcs.len()
        invariant
            k <= module@.funcs.len(),
            forall|j: int| 0 <= j < k ==> (#[trigger] module@.funcs[j]).functype
                < module@.types.len(),
        decreases module.funcs.len() - k,
    {
        proof {
            assert(module@.funcs[k as int] == module.funcs@[k as int]@);
        }
        if module.funcs[k].functype >= module.types.len() {
            return Option::Some(Error::ModuleValidate);
        }
        k += 1;
    }
    let mut k: usize = 0;
    while k < module.tables.len()
        invariant
            k <= module@.tables.len(),
            forall|j: int| 0 <= j < k ==> limits_in(
                (#[trigger] module@.tables[j]).limits,
                MAX_TABLE_SIZE as nat,
            ),
        decreases module.tables.len() - k,
    {
        proof {
            assert(module@.tables[k as int] == module.tables@[k as int].tabletype);
        }
        if !limits_in_exec(&module.tables[k].tabletype.limits, MAX_TABLE_SIZE) {
            return Option::Some(Error::ModuleValidate);
        }
        k += 1;
    }
    let mut k: usize = 0;
    while k < module.mems.len()
        invariant
            k <= module@.mems.len(),
            forall|j: int| 0 <= j < k ==> limits_in(
                (#[trigger] module@.mems[j]).limits,
                MAX_PAGES as nat,
            ) && module@.mems[j].limits.min * PAGE_SIZE <= usize::MAX,
        decreases module.mems.len() - k,
    {
        proof {
            assert(module@.mems[k as int] == module.mems@[k as int].memtype);
        }
        if !limits_in_exec(&module.mems[k].memtype.limits, MAX_PAGES) {
            return Option::Some(Error::ModuleValidate);
        }
        if module.mems[k].memtype.limits.min as u64 * PAGE_SIZE as u64 > usize::MAX as u64 {
            return Option::Some(Error::ModuleValidate);
        }
        k += 1;
    }
    let mut k: usize = 0;
    while k < module.globals.len()
        invariant
            k <= module@.globals.len(),
            n_funcs == count_imports(module@.imports).0 + module@.funcs.len(),
            gi == count_imports(module@.imports).3,
            forall|j: int| 0 <= j < k ==> const_shape_ok(
                (#[trigger] module@.globals[j]).init,
                count_imports(module@.imports).0 + module@.funcs.len(),
                count_imports(module@.imports).3,
            ),
        decreases module.globals.len() - k,
    {
        proof {
            assert(module@.globals[k as int] == module.globals@[k as int]@);
        }
        if !const_shape_check(&module.globals[k].init, n_funcs, gi as u128) {
            return Option::Some(Error::ModuleValidate);
        }
        k += 1;
    }
    let mut k: usize = 0;
    while k < module.elems.len()
        invariant
            k <= module@.elems.len(),
            n_funcs == count_imports(module@.imports).0 + module@.funcs.len(),
            ti == count_imports(module@.imports).1,
            gi == count_imports(module@.imports).3,
            forall|j: int| 0 <= j < k ==> elem_mode_ok(module@, (#[trigger] module@.elems[j]).mode)
                && forall|l: int| 0 <= l < module@.elems[j].init.len() ==> elem_init_ok(
                #[trigger] module@.elems[j].init[l],
                count_imports(module@.imports).0 + module@.funcs.len(),
            ),
        decreases module.elems.len() - k,
    {
        proof {
            assert(module@.elems[k as int] == module.elems@[k as int]@);
        }
        match &module.elems[k].mode {
            modules::ElemMode::Active(tidx, off) => {
                if (*tidx as u128) >= ti as u128 + module.tables.len() as u128 {
                    return Option::Some(Error::ModuleValidate);
                }
                if !offset_shape_check(off, gi as u128) {
                    return Option::Some(Error::ModuleValidate);
                }
            },
            _ => {},
        }
        let mut l: usize = 0;
        while l < module.elems[k].init.len()
            invariant
                k < module@.elems.len(),
                l <= module@.elems[k as int].init.len(),
                n_funcs == count_imports(module@.imports).0 + module@.funcs.len(),
                forall|x: int| 0 <= x < l ==> elem_init_ok(
                    #[trigger] module@.elems[k as int].init[x],
                    count_imports(module@.imports).0 + module@.funcs.len(),
                ),
            decreases module@.elems[k as int].init.len() - l,
        {
            let e = &module.elems[k].init[l];
            proof {
                assert(module@.elems[k as int] == module.elems@[k as int]@);
                assert(module@.elems[k as int].init[l as int] == module.elems@[k as int].init@[
                    l as int
                ]@);
            }
            if e.len() != 1 {
                return Option::Some(Error::ModuleValidate);
            }
            match e[0] {
                Instr::RefNull(_) => {},
                Instr::RefFunc(fidx) => {
                    if fidx as u128 >= n_funcs {
                        return Option::Some(Error::ModuleValidate);
                    }
                },
                _ => {
                    return Option::Some(Error::ModuleValidate);
                },
            }
            l += 1;
        }
        k += 1;
    }
    let mut k: usize = 0;
    while k < module.datas.len()
        invariant
            k <= module@.datas.len(),
            mi == count_imports(module@.imports).2,
            gi == count_imports(module@.imports).3,
            forall|j: int| 0 <= j < k ==> data_mode_ok(
                module@,
                (#[trigger] module@.datas[j]).mode,
            ),
        decreases module.datas.len() - k,
    {
        proof {
            assert(module@.datas[k as int] == module.datas@[k as int]@);
        }
        match &module.datas[k].mode {
            modules::DataMode::Active(midx, off) => {
                if (*midx as u128) >= mi as u128 + module.mems.len() as u128 {
                    return Option::Some(Error::ModuleValidate);
                }
                if !offset_shape_check(off, gi as u128) {
                    return Option::Some(Error::ModuleValidate);
                }
            },
            modules::DataMode::Passive => {},
        }
        k += 1;
    }
    let mut k: usize = 0;
    while k < module.exports.len()
        invariant
            k <= module@.exports.len(),
            fi == count_imports(module@.imports).0,
            ti == count_imports(module@.imports).1,
            mi == count_imports(module@.imports).2,
            gi == count_imports(module@.imports).3,
            forall|j: int| 0 <= j < k ==> export_desc_ok(module@, (#[trigger] module@.exports[j]).desc),
            forall|x: int, j: int| 0 <= j < x < k ==> (#[trigger] module@.exports[x]).name != (
            #[trigger] module@.exports[j]).name,
        decreases module.exports.len() - k,
    {
        let ok = match module.exports[k].desc {
            modules::ExportDesc::Func(i) => (i as u128) < fi as u128 + module.funcs.len() as u128,
            modules::ExportDesc::Table(i) => (i as u128) < ti as u128 + module.tables.len() as u128,
            modules::ExportDesc::Mem(i) => (i as u128) < mi as u128 + module.mems.len() as u128,
            modules::ExportDesc::Global(i) => (i as u128) < gi as u128 + module.globals.len() as u128,
        };
        if !ok {
            return Option::Some(Error::ModuleValidate);
        }
        let mut j: usize = 0;
        while j < k
            invariant
                j <= k,
                k < module@.exports.len(),
                forall|x: int| 0 <= x < j ==> (#[trigger] module@.exports[x]).name
                    != module@.exports[k as int].name,
            decreases k - j,
        {
            if module.exports[j].name == module.exports[k].name {
                proof {
                    assert(module@.exports[j as int] == module.exports@[j as int]@);
                    assert(module@.exports[k as int] == module.exports@[k as int]@);
                }
                return Option::Some(Error::ModuleValidate);
            }
            j += 1;
        }
        k += 1;
    }
    match module.start {
        Option::None => {},
        Option::Some(si) => {
            if si as u128 >= n_funcs {
                return Option::Some(Error::ModuleValidate);
            }
        },
    }
    Option::None
}

/// Checks limits against a cap, exactly as `limits_in` states it.
fn limits_in_exec(l: &types::Limits, cap: usize) -> (r: bool)
    ensures
        r == limits_in(*l, cap as nat),
{
    if l.min > cap {
        return false;
    }
    match l.max {
        Option::None => true,
        Option::Some(mx) => l.min <= mx && mx <= cap,
    }
}

/// Checks a constant initializer's shape, exactly as `const_shape_ok`
/// states it.
fn const_shape_check(e: &Vec<Instr>, n_funcs: u128, n_gimp: u128) -> (r: bool)
    ensures
        r == const_shape_ok(e@, n_funcs as nat, n_gimp as nat),
{
    if e.len() != 1 {
        return false;
    }
    match e[0] {
        Instr::I32Const(_) => true,
        Instr::I64Const(_) => true,
        Instr::F32Const(_) => true,
        Instr::F64Const(_) => true,
        Instr::RefNull(_) => true,
        Instr::RefFunc(fi) => (fi as u128) < n_funcs,
        Instr::GlobalGet(gi) => (gi as u128) < n_gimp,
        _ => false,
    }
}

/// Checks an offset initializer's shape, exactly as `offset_shape_ok`
/// states it.
fn offset_shape_check(e: &Vec<Instr>, n_gimp: u128) -> (r: bool)
    ensures
        r == offset_shape_ok(e@, n_gimp as nat),
{
    if e.len() != 1 {
        return false;
    }
    match e[0] {
        Instr::I32Const(_) => true,
        Instr::GlobalGet(gi) => (gi as u128) < n_gimp,
        _ => false,
    }
}

/// Counts the module's imports of each kind.
fn count_import_kinds(module: &Module) -> (r: (usize, usize, usize, usize))
    ensures
        r.0 == count_imports(module@.imports).0,
        r.1 == count_imports(module@.imports).1,
        r.2 == count_imports(module@.imports).2,
        r.3 == count_imports(module@.imports).3,
{
    let mut cf: usize = 0;
    let mut ct: usize = 0;
    let mut cm: usize = 0;
    let mut cg: usize = 0;
    let mut i: usize = 0;
    while i < module.imports.len()
        invariant
            i <= module@.imports.len(),
            cf == count_imports(module@.imports.take(i as int)).0,
            ct == count_imports(module@.imports.take(i as int)).1,
            cm == count_imports(module@.imports.take(i as int)).2,
            cg == count_imports(module@.imports.take(i as int)).3,
            cf + ct + cm + cg == i,
        decreases module.imports.len() - i,
    {
        proof {
            assert(module@.imports.take(i + 1).drop_last() =~= module@.imports.take(i as int));
            assert(module@.imports.take(i + 1).last() == module@.imports[i as int]);
        }
        match &module.imports[i].desc {
            modules::ImportDesc::Func(_) => {
                cf += 1;
            },
            modules::ImportDesc::Table(_) => {
                ct += 1;
            },
            modules::ImportDesc::Mem(_) => {
                cm += 1;
            },
            modules::ImportDesc::Global(_) => {
                cg += 1;
            },
        }
        i += 1;
    }
    proof {
        assert(module@.imports.take(module@.imports.len() as int) =~= module@.imports);
    }
    (cf, ct, cm, cg)
}

/// Checks each import in order, exactly as `import_check_all` states it.
#[verifier::loop_isolation(false)]
fn check_imports(store: &Store, module: &Module, ev: &Vec<ExternalVal>) -> (r: Option<Error>)
    ensures
        r == import_check_all(store@, module@, ev@),
{
    if ev.len() != module.imports.len() {
        return Option::Some(Error::ImportUnknown);
    }
    let mut i: usize = 0;
    while i < module.imports.len()
        invariant
            i <= module@.imports.len(),
            ev@.len() == module@.imports.len(),
            import_checks(store@, module@, ev@, 0) == import_checks(store@, module@, ev@, i as nat),
        decreases module.imports.len() - i,
    {
        let failure: Option<Error> = match (&module.imports[i].desc, ev[i]) {
            (modules::ImportDesc::Func(tyidx), ExternalVal::Fun(a)) => {
                if a >= store.funcinstances.len() {
                    Option::Some(Error::UndefinedFunction(a))
                } else if *tyidx >= module.types.len() {
                    Option::Some(Error::ModuleValidate)
                } else {
                    let expected = &module.types[*tyidx];
                    let actual = match &store.funcinstances[a] {
                        FuncInstance::Internal(f) => &f.functype,
                        FuncInstance::Host(f) => &f.functype,
                    };
                    if !expected.type_eq(actual) {
                        Option::Some(Error::ImportTypeMismatch)
                    } else {
                        Option::None
                    }
                }
            },
            (modules::ImportDesc::Table(tt), ExternalVal::Table(a)) => {
                if a >= store.tables.len() {
                    Option::Some(Error::UndefinedTable(a))
                } else if !store.tables[a].tabletype.limits.is_subtype(&tt.limits) {
                    Option::Some(Error::ImportTypeMismatch)
                } else {
                    Option::None
                }
            },
            (modules::ImportDesc::Mem(mt), ExternalVal::Mem(a)) => {
                if a >= store.mems.len() {
                    Option::Some(Error::UndefinedMem(a))
                } else if !store.mems[a].memtype.limits.is_subtype(&mt.limits) {
                    Option::Some(Error::ImportTypeMismatch)
                } else {
                    Option::None
                }
            },
            (modules::ImportDesc::Global(gt), ExternalVal::Global(a)) => {
                if a >= store.globals.len() {
                    Option::Some(Error::UndefinedGlobal(a))
                } else if store.globals[a].globaltype != *gt {
                    Option::Some(Error::ImportTypeMismatch)
                } else {
                    Option::None
                }
            },
            _ => Option::Some(Error::ImportTypeMismatch),
        };
        proof {
            assert(failure == check_import(
                store@,
                module@,
                module@.imports[i as int].desc,
                ev@[i as int],
            ));
        }
        match failure {
            Option::Some(e) => {
                return Option::Some(e);
            },
            Option::None => {},
        }
        i += 1;
    }
    Option::None
}

/// Splits external values into the address vectors per kind, in order.
fn split_externvals(ev: &Vec<ExternalVal>) -> (r: (Vec<Addr>, Vec<Addr>, Vec<Addr>, Vec<Addr>))
    ensures
        r.0@ == func_addrs_of(ev@),
        r.1@ == table_addrs_of(ev@),
        r.2@ == mem_addrs_of(ev@),
        r.3@ == global_addrs_of(ev@),
{
    let mut fa: Vec<Addr> = Vec::new();
    let mut ta: Vec<Addr> = Vec::new();
    let mut ma: Vec<Addr> = Vec::new();
    let mut ga: Vec<Addr> = Vec::new();
    let mut i: usize = 0;
    while i < ev.len()
        invariant
            i <= ev@.len(),
            fa@ == func_addrs_of(ev@.take(i as int)),
            ta@ == table_addrs_of(ev@.take(i as int)),
            ma@ == mem_addrs_of(ev@.take(i as int)),
            ga@ == global_addrs_of(ev@.take(i as int)),
        decreases ev.len() - i,
    {
        proof {
            assert(ev@.take(i + 1).drop_last() =~= ev@.take(i as int));
            assert(ev@.take(i + 1).last() == ev@[i as int]);
        }
        match ev[i] {
            ExternalVal::Fun(a) => fa.push(a),
            ExternalVal::Table(a) => ta.push(a),
            ExternalVal::Mem(a) => ma.push(a),
            ExternalVal::Global(a) => ga.push(a),
        }
        i += 1;
    }
    proof {
        assert(ev@.take(ev@.len() as int) =~= ev@);
    }
    (fa, ta, ma, ga)
}

/// Evaluates a constant initializer, exactly as `const_eval` states it.
fn eval_const(store: &Store, funct: &Vec<Addr>, gimp: &Vec<Addr>, e: &Vec<Instr>) -> (r: Result<
    Val,
    Error,
>)
    ensures
        r == const_eval(store@, funct@, gimp@, e@),
{
    if e.len() != 1 {
        return Result::Err(Error::ModuleValidate);
    }
    match e[0] {
        Instr::I32Const(v) => Result::Ok(Val::Num(crate::runtime::Num::I32(v))),
        Instr::I64Const(v) => Result::Ok(Val::Num(crate::runtime::Num::I64(v))),
        Instr::F32Const(v) => Result::Ok(Val::Num(crate::runtime::Num::F32(v))),
        Instr::F64Const(v) => Result::Ok(Val::Num(crate::runtime::Num::F64(v))),
        Instr::RefNull(rt) => Result::Ok(Val::Ref(Ref::Null(rt))),
        Instr::RefFunc(fi) => {
            if fi >= funct.len() {
                Result::Err(Error::ModuleValidate)
            } else {
                Result::Ok(Val::Ref(Ref::Func(funct[fi])))
            }
        },
        Instr::GlobalGet(gi) => {
            if gi >= gimp.len() {
                Result::Err(Error::ModuleValidate)
            } else if gimp[gi] >= store.globals.len() {
                Result::Err(Error::UndefinedGlobal(gimp[gi]))
            } else {
                Result::Ok(store.globals[gimp[gi]].value)
            }
        },
        _ => Result::Err(Error::ModuleValidate),
    }
}

/// An element-wise copy of a byte vector.
fn copy_bytes(a: &Vec<u8>) -> (r: Vec<u8>)
    ensures
        r@ == a@,
{
    let mut out: Vec<u8> = Vec::new();
    let mut i: usize = 0;
    while i < a.len()
        invariant
            i <= a.len(),
            out@ == a@.take(i as int),
        decreases a.len() - i,
    {
        out.push(a[i]);
        proof {
            assert(out@ =~= a@.take(i as int + 1));
        }
        i += 1;
    }
    proof {
        assert(a@.take(a@.len() as int) =~= a@);
    }
    out
}

/// Appends the module's own function instances, recording their fresh
/// addresses.
#[verifier::rlimit(100)]
#[verifier::loop_isolation(false)]
fn alloc_funcs(store: &mut Store, module: &Module, funct: &mut Vec<Addr>, inst_addr: usize)
    requires
        module_shape_ok(module@),
    ensures
        final(store)@.funcinstances == old(store)@.funcinstances + Seq::new(
            module@.funcs.len(),
            |x: int| FuncInstanceV::Internal {
                functype: module@.types[module@.funcs[x].functype as int],
                module: inst_addr,
                code: module@.funcs[x],
            },
        ),
        final(store)@ == (StoreV { funcinstances: final(store)@.funcinstances, ..old(store)@ }),
        final(funct)@ == old(funct)@ + Seq::new(
            module@.funcs.len(),
            |x: int| (old(store)@.funcinstances.len() + x) as usize,
        ),
{
    let ghost s0 = store@;
    let ghost f0 = funct@;
    let mut k: usize = 0;
    while k < module.funcs.len()
        invariant
            k <= module@.funcs.len(),
            store@.funcinstances == s0.funcinstances + Seq::new(
                k as nat,
                |x: int| FuncInstanceV::Internal {
                    functype: module@.types[module@.funcs[x].functype as int],
                    module: inst_addr,
                    code: module@.funcs[x],
                },
            ),
            funct@ == f0 + Seq::new(k as nat, |x: int| (s0.funcinstances.len() + x) as usize),
            store@ == (StoreV { funcinstances: store@.funcinstances, ..s0 }),
        decreases module.funcs.len() - k,
    {
        let ghost head = store@;
        let a = store.funcinstances.len();
        proof {
            assert(module@.funcs[k as int].functype < module@.types.len());
            assert(module@.funcs[k as int] == module.funcs@[k as int]@);
            assert(module@.types[module@.funcs[k as int].functype as int] == module.types@[
                module@.funcs[k as int].functype as int
            ]@);
        }
        store.funcinstances.push(
            FuncInstance::Internal(
                InternalFuncInstance {
                    functype: module.types[module.funcs[k].functype].duplicate(),
                    module: inst_addr,
                    code: module.funcs[k].duplicate(),
                },
            ),
        );
        funct.push(a);
        proof {
            assert(store@.funcinstances[s0.funcinstances.len() + k as int]
                == FuncInstanceV::Internal {
                functype: module@.types[module@.funcs[k as int].functype as int],
                module: inst_addr,
                code: module@.funcs[k as int],
            });
            assert forall|i: int|
                0 <= i < store@.funcinstances.len() implies store@.funcinstances[i] == (
            s0.funcinstances + Seq::new(
                (k + 1) as nat,
                |x: int| FuncInstanceV::Internal {
                    functype: module@.types[module@.funcs[x].functype as int],
                    module: inst_addr,
                    code: module@.funcs[x],
                },
            ))[i] by {
                let rhs = s0.funcinstances + Seq::new(
                    (k + 1) as nat,
                    |x: int| FuncInstanceV::Internal {
                        functype: module@.types[module@.funcs[x].functype as int],
                        module: inst_addr,
                        code: module@.funcs[x],
                    },
                );
                if i < s0.funcinstances.len() {
                    assert(head.funcinstances[i] == s0.funcinstances[i]);
                } else if i < s0.funcinstances.len() + k {
                    let j = i - s0.funcinstances.len();
                    assert(head.funcinstances[i] == Seq::new(
                        k as nat,
                        |x: int| FuncInstanceV::Internal {
                            functype: module@.types[module@.funcs[x].functype as int],
                            module: inst_addr,
                            code: module@.funcs[x],
                        },
                    )[j]);
                    assert(rhs[i] == Seq::new(
                        (k + 1) as nat,
                        |x: int| FuncInstanceV::Internal {
                            functype: module@.types[module@.funcs[x].functype as int],
                            module: inst_addr,
                            code: module@.funcs[x],
                        },
                    )[j]);
                }
            }
            assert(store@.funcinstances =~= s0.funcinstances + Seq::new(
                (k + 1) as nat,
                |x: int| FuncInstanceV::Internal {
                    functype: module@.types[module@.funcs[x].functype as int],
                    module: inst_addr,
                    code: module@.funcs[x],
                },
            ));
            assert(funct@ =~= f0 + Seq::new(
                (k + 1) as nat,
                |x: int| (s0.funcinstances.len() + x) as usize,
            ));
        }
        k += 1;
    }
}

/// Evaluates every global initializer against the original store's
/// imported globals.
#[verifier::rlimit(100)]
#[verifier::loop_isolation(false)]
fn eval_globals(store: &Store, module: &Module, funct: &Vec<Addr>, ga: &Vec<Addr>) -> (r: Vec<Val>)
    requires
        module_shape_ok(module@),
        funct@.len() == count_imports(module@.imports).0 + module@.funcs.len(),
        ga@.len() == count_imports(module@.imports).3,
        forall|j: int| 0 <= j < ga@.len() ==> #[trigger] ga@[j] < store@.globals.len(),
    ensures
        r@ == Seq::new(
            module@.globals.len(),
            |x: int| const_eval(store@, funct@, ga@, module@.globals[x].init)->Ok_0,
        ),
{
    let mut gvals: Vec<Val> = Vec::new();
    let mut k: usize = 0;
    while k < module.globals.len()
        invariant
            k <= module@.globals.len(),
            gvals@ == Seq::new(
                k as nat,
                |x: int| const_eval(store@, funct@, ga@, module@.globals[x].init)->Ok_0,
            ),
        decreases module.globals.len() - k,
    {
        proof {
            assert(const_shape_ok(
                (#[trigger] module@.globals[k as int]).init,
                count_imports(module@.imports).0 + module@.funcs.len(),
                count_imports(module@.imports).3,
            ));
        }
        match eval_const(store, funct, ga, &module.globals[k].init) {
            Result::Ok(v) => {
                gvals.push(v);
                proof {
                    assert(gvals@ =~= Seq::new(
                        (k + 1) as nat,
                        |x: int| const_eval(store@, funct@, ga@, module@.globals[x].init)->Ok_0,
                    ));
                }
            },
            Result::Err(e) => {
                proof {
                    assert(false);
                }
            },
        }
        k += 1;
    }
    gvals
}

/// Appends the module's own tables, each at its declared minimum of null
/// elements, recording their fresh addresses.
#[verifier::rlimit(100)]
#[verifier::loop_isolation(false)]
fn alloc_tables(store: &mut Store, module: &Module, dir: &mut Vec<Addr>)
    ensures
        final(store)@.tables == old(store)@.tables + Seq::new(
            module@.tables.len(),
            |x: int| TableV {
                tabletype: module@.tables[x],
                elem: Seq::new(
                    module@.tables[x].limits.min as nat,
                    |i: int| Ref::Null(types::Ref::Func),
                ),
            },
        ),
        final(store)@ == (StoreV { tables: final(store)@.tables, ..old(store)@ }),
        final(dir)@ == old(dir)@ + Seq::new(
            module@.tables.len(),
            |x: int| (old(store)@.tables.len() + x) as usize,
        ),
{
    let ghost s0 = store@;
    let ghost d0 = dir@;
    let mut k: usize = 0;
    while k < module.tables.len()
        invariant
            k <= module@.tables.len(),
            store@.tables == s0.tables + Seq::new(
                k as nat,
                |x: int| TableV {
                    tabletype: module@.tables[x],
                    elem: Seq::new(
                        module@.tables[x].limits.min as nat,
                        |i: int| Ref::Null(types::Ref::Func),
                    ),
                },
            ),
            dir@ == d0 + Seq::new(k as nat, |x: int| (s0.tables.len() + x) as usize),
            store@ == (StoreV { tables: store@.tables, ..s0 }),
        decreases module.tables.len() - k,
    {
        let ghost head = store@;
        let a = store.tables.len();
        let tabletype = module.tables[k].tabletype;
        let min = tabletype.limits.min;
        let mut elem: Vec<Ref> = Vec::new();
        let mut i: usize = 0;
        while i < min
            invariant
                i <= min,
                elem@ == Seq::new(i as nat, |j: int| Ref::Null(types::Ref::Func)),
            decreases min - i,
        {
            elem.push(Ref::Null(types::Ref::Func));
            proof {
                assert(elem@ =~= Seq::new((i + 1) as nat, |j: int| Ref::Null(types::Ref::Func)));
            }
            i += 1;
        }
        store.tables.push(Table { tabletype, elem });
        dir.push(a);
        proof {
            assert forall|ix: int| 0 <= ix < store@.tables.len() implies store@.tables[ix]
                == (s0.tables + Seq::new(
                (k + 1) as nat,
                |x: int| TableV {
                    tabletype: module@.tables[x],
                    elem: Seq::new(
                        module@.tables[x].limits.min as nat,
                        |i: int| Ref::Null(types::Ref::Func),
                    ),
                },
            ))[ix] by {
                let rhs = s0.tables + Seq::new(
                    (k + 1) as nat,
                |x: int| TableV {
                    tabletype: module@.tables[x],
                    elem: Seq::new(
                        module@.tables[x].limits.min as nat,
                        |i: int| Ref::Null(types::Ref::Func),
                    ),
                },
                );
                if ix < s0.tables.len() {
                    assert(head.tables[ix] == s0.tables[ix]);
                } else if ix < s0.tables.len() + k {
                    let j = ix - s0.tables.len();
                    assert(head.tables[ix] == Seq::new(
                        k as nat,
                |x: int| TableV {
                    tabletype: module@.tables[x],
                    elem: Seq::new(
                        module@.tables[x].limits.min as nat,
                        |i: int| Ref::Null(types::Ref::Func),
                    ),
                },
                    )[j]);
                    assert(rhs[ix] == Seq::new(
                        (k + 1) as nat,
                |x: int| TableV {
                    tabletype: module@.tables[x],
                    elem: Seq::new(
                        module@.tables[x].limits.min as nat,
                        |i: int| Ref::Null(types::Ref::Func),
                    ),
                },
                    )[j]);
                }
            }
            assert(store@.tables =~= s0.tables + Seq::new(
                (k + 1) as nat,
                |x: int| TableV {
                    tabletype: module@.tables[x],
                    elem: Seq::new(
                        module@.tables[x].limits.min as nat,
                        |i: int| Ref::Null(types::Ref::Func),
                    ),
                },
            ));
            assert(dir@ =~= d0 + Seq::new((k + 1) as nat, |x: int| (s0.tables.len() + x) as usize));
        }
        k += 1;
    }
}

/// Appends the module's own memories, zero-filled to their declared
/// minimum of pages, recording their fresh addresses.
#[verifier::rlimit(100)]
#[verifier::loop_isolation(false)]
fn alloc_mems(store: &mut Store, module: &Module, dir: &mut Vec<Addr>)
    requires
        module_shape_ok(module@),
    ensures
        final(store)@.mems == old(store)@.mems + Seq::new(
            module@.mems.len(),
            |x: int| MemV {
                memtype: module@.mems[x],
                data: Seq::new((module@.mems[x].limits.min * PAGE_SIZE) as nat, |i: int| 0u8),
            },
        ),
        final(store)@ == (StoreV { mems: final(store)@.mems, ..old(store)@ }),
        final(dir)@ == old(dir)@ + Seq::new(
            module@.mems.len(),
            |x: int| (old(store)@.mems.len() + x) as usize,
        ),
{
    let ghost s0 = store@;
    let ghost d0 = dir@;
    let mut k: usize = 0;
    while k < module.mems.len()
        invariant
            k <= module@.mems.len(),
            store@.mems == s0.mems + Seq::new(
                k as nat,
                |x: int| MemV {
                    memtype: module@.mems[x],
                    data: Seq::new((module@.mems[x].limits.min * PAGE_SIZE) as nat, |i: int| 0u8),
                },
            ),
            dir@ == d0 + Seq::new(k as nat, |x: int| (s0.mems.len() + x) as usize),
            store@ == (StoreV { mems: store@.mems, ..s0 }),
        decreases module.mems.len() - k,
    {
        let ghost head = store@;
        let a = store.mems.len();
        let memtype = module.mems[k].memtype;
        proof {
            assert(limits_in((#[trigger] module@.mems[k as int]).limits, MAX_PAGES as nat)
                && module@.mems[k as int].limits.min * PAGE_SIZE <= usize::MAX);
        }
        let bytes: usize = (memtype.limits.min as u64 * PAGE_SIZE as u64) as usize;
        let mut data: Vec<u8> = Vec::new();
        let mut i: usize = 0;
        while i < bytes
            invariant
                i <= bytes,
                data@ == Seq::new(i as nat, |j: int| 0u8),
            decreases bytes - i,
        {
            data.push(0);
            proof {
                assert(data@ =~= Seq::new((i + 1) as nat, |j: int| 0u8));
            }
            i += 1;
        }
        store.mems.push(Mem { memtype, data });
        dir.push(a);
        proof {
            assert forall|ix: int| 0 <= ix < store@.mems.len() implies store@.mems[ix]
                == (s0.mems + Seq::new(
                (k + 1) as nat,
                |x: int| MemV {
                    memtype: module@.mems[x],
                    data: Seq::new((module@.mems[x].limits.min * PAGE_SIZE) as nat, |i: int| 0u8),
                },
            ))[ix] by {
                let rhs = s0.mems + Seq::new(
                    (k + 1) as nat,
                |x: int| MemV {
                    memtype: module@.mems[x],
                    data: Seq::new((module@.mems[x].limits.min * PAGE_SIZE) as nat, |i: int| 0u8),
                },
                );
                if ix < s0.mems.len() {
                    assert(head.mems[ix] == s0.mems[ix]);
                } else if ix < s0.mems.len() + k {
                    let j = ix - s0.mems.len();
                    assert(head.mems[ix] == Seq::new(
                        k as nat,
                |x: int| MemV {
                    memtype: module@.mems[x],
                    data: Seq::new((module@.mems[x].limits.min * PAGE_SIZE) as nat, |i: int| 0u8),
                },
                    )[j]);
                    assert(rhs[ix] == Seq::new(
                        (k + 1) as nat,
                |x: int| MemV {
                    memtype: module@.mems[x],
                    data: Seq::new((module@.mems[x].limits.min * PAGE_SIZE) as nat, |i: int| 0u8),
                },
                    )[j]);
                }
            }
            assert(store@.mems =~= s0.mems + Seq::new(
                (k + 1) as nat,
                |x: int| MemV {
                    memtype: module@.mems[x],
                    data: Seq::new((module@.mems[x].limits.min * PAGE_SIZE) as nat, |i: int| 0u8),
                },
            ));
            assert(dir@ =~= d0 + Seq::new((k + 1) as nat, |x: int| (s0.mems.len() + x) as usize));
        }
        k += 1;
    }
}

/// Appends the module's own globals with their evaluated initial values,
/// recording their fresh addresses.
#[verifier::rlimit(100)]
#[verifier::loop_isolation(false)]
fn alloc_globals(store: &mut Store, module: &Module, gvals: &Vec<Val>, dir: &mut Vec<Addr>)
    requires
        gvals@.len() == module@.globals.len(),
    ensures
        final(store)@.globals == old(store)@.globals + Seq::new(
            module@.globals.len(),
            |x: int| Global { globaltype: module@.globals[x].globaltype, value: gvals@[x] },
        ),
        final(store)@ == (StoreV { globals: final(store)@.globals, ..old(store)@ }),
        final(dir)@ == old(dir)@ + Seq::new(
            module@.globals.len(),
            |x: int| (old(store)@.globals.len() + x) as usize,
        ),
{
    let ghost s0 = store@;
    let ghost d0 = dir@;
    let mut k: usize = 0;
    while k < module.globals.len()
        invariant
            k <= module@.globals.len(),
            store@.globals == s0.globals + Seq::new(
                k as nat,
                |x: int| Global { globaltype: module@.globals[x].globaltype, value: gvals@[x] },
            ),
            dir@ == d0 + Seq::new(k as nat, |x: int| (s0.globals.len() + x) as usize),
            store@ == (StoreV { globals: store@.globals, ..s0 }),
        decreases module.globals.len() - k,
    {
        let a = store.globals.len();
        store.globals.push(Global { globaltype: module.globals[k].globaltype, value: gvals[k] });
        dir.push(a);
        proof {
            assert(store@.globals =~= s0.globals + Seq::new(
                (k + 1) as nat,
                |x: int| Global { globaltype: module@.globals[x].globaltype, value: gvals@[x] },
            ));
            assert(dir@ =~= d0 + Seq::new(
                (k + 1) as nat,
                |x: int| (s0.globals.len() + x) as usize,
            ));
        }
        k += 1;
    }
}

/// Appends the module's element segments, their initializers evaluated
/// to references, recording their fresh addresses.
#[verifier::rlimit(100)]
#[verifier::loop_isolation(false)]
fn alloc_elems(store: &mut Store, module: &Module, funct: &Vec<Addr>, dir: &mut Vec<Addr>)
    requires
        module_shape_ok(module@),
        funct@.len() == count_imports(module@.imports).0 + module@.funcs.len(),
    ensures
        final(store)@.elems == old(store)@.elems + Seq::new(
            module@.elems.len(),
            |x: int| ElemV {
                elemtype: module@.elems[x].elemtype,
                elem: Seq::new(
                    module@.elems[x].init.len(),
                    |j: int| elem_init_ref(funct@, module@.elems[x].init[j]),
                ),
            },
        ),
        final(store)@ == (StoreV { elems: final(store)@.elems, ..old(store)@ }),
        final(dir)@ == old(dir)@ + Seq::new(
            module@.elems.len(),
            |x: int| (old(store)@.elems.len() + x) as usize,
        ),
{
    let ghost s0 = store@;
    let ghost d0 = dir@;
    let mut k: usize = 0;
    while k < module.elems.len()
        invariant
            k <= module@.elems.len(),
            store@.elems == s0.elems + Seq::new(
                k as nat,
                |x: int| ElemV {
                    elemtype: module@.elems[x].elemtype,
                    elem: Seq::new(
                        module@.elems[x].init.len(),
                        |j: int| elem_init_ref(funct@, module@.elems[x].init[j]),
                    ),
                },
            ),
            dir@ == d0 + Seq::new(k as nat, |x: int| (s0.elems.len() + x) as usize),
            store@ == (StoreV { elems: store@.elems, ..s0 }),
        decreases module.elems.len() - k,
    {
        let ghost head = store@;
        let a = store.elems.len();
        let mut refs: Vec<Ref> = Vec::new();
        let mut j: usize = 0;
        while j < module.elems[k].init.len()
            invariant
                j <= module@.elems[k as int].init.len(),
                k < module@.elems.len(),
                refs@ == Seq::new(
                    j as nat,
                    |x: int| elem_init_ref(funct@, module@.elems[k as int].init[x]),
                ),
            decreases module@.elems[k as int].init.len() - j,
        {
            let e = &module.elems[k].init[j];
            proof {
                assert(elem_init_ok(
                    #[trigger] module@.elems[k as int].init[j as int],
                    count_imports(module@.imports).0 + module@.funcs.len(),
                ));
            }
            match e[0] {
                Instr::RefNull(rt) => refs.push(Ref::Null(rt)),
                Instr::RefFunc(fi) => refs.push(Ref::Func(funct[fi])),
                _ => {
                    proof {
                        assert(false);
                    }
                },
            }
            proof {
                assert(refs@ =~= Seq::new(
                    (j + 1) as nat,
                    |x: int| elem_init_ref(funct@, module@.elems[k as int].init[x]),
                ));
            }
            j += 1;
        }
        store.elems.push(Elem { elemtype: module.elems[k].elemtype, elem: refs });
        dir.push(a);
        proof {
            assert forall|ix: int| 0 <= ix < store@.elems.len() implies store@.elems[ix]
                == (s0.elems + Seq::new(
                (k + 1) as nat,
                |x: int| ElemV {
                    elemtype: module@.elems[x].elemtype,
                    elem: Seq::new(
                        module@.elems[x].init.len(),
                        |j: int| elem_init_ref(funct@, module@.elems[x].init[j]),
                    ),
                },
            ))[ix] by {
                let rhs = s0.elems + Seq::new(
                    (k + 1) as nat,
                |x: int| ElemV {
                    elemtype: module@.elems[x].elemtype,
                    elem: Seq::new(
                        module@.elems[x].init.len(),
                        |j: int| elem_init_ref(funct@, module@.elems[x].init[j]),
                    ),
                },
                );
                if ix < s0.elems.len() {
                    assert(head.elems[ix] == s0.elems[ix]);
                } else if ix < s0.elems.len() + k {
                    let j = ix - s0.elems.len();
                    assert(head.elems[ix] == Seq::new(
                        k as nat,
                |x: int| ElemV {
                    elemtype: module@.elems[x].elemtype,
                    elem: Seq::new(
                        module@.elems[x].init.len(),
                        |j: int| elem_init_ref(funct@, module@.elems[x].init[j]),
                    ),
                },
                    )[j]);
                    assert(rhs[ix] == Seq::new(
                        (k + 1) as nat,
                |x: int| ElemV {
                    elemtype: module@.elems[x].elemtype,
                    elem: Seq::new(
                        module@.elems[x].init.len(),
                        |j: int| elem_init_ref(funct@, module@.elems[x].init[j]),
                    ),
                },
                    )[j]);
                }
            }
            assert(store@.elems =~= s0.elems + Seq::new(
                (k + 1) as nat,
                |x: int| ElemV {
                    elemtype: module@.elems[x].elemtype,
                    elem: Seq::new(
                        module@.elems[x].init.len(),
                        |j: int| elem_init_ref(funct@, module@.elems[x].init[j]),
                    ),
                },
            ));
            assert(dir@ =~= d0 + Seq::new((k + 1) as nat, |x: int| (s0.elems.len() + x) as usize));
        }
        k += 1;
    }
}

/// Appends the module's data segments with their literal payloads,
/// recording their fresh addresses.
#[verifier::rlimit(100)]
#[verifier::loop_isolation(false)]
fn alloc_datas(store: &mut Store, module: &Module, dir: &mut Vec<Addr>)
    ensures
        final(store)@.datas == old(store)@.datas + Seq::new(
            module@.datas.len(),
            |x: int| DataV { data: module@.datas[x].init },
        ),
        final(store)@ == (StoreV { datas: final(store)@.datas, ..old(store)@ }),
        final(dir)@ == old(dir)@ + Seq::new(
            module@.datas.len(),
            |x: int| (old(store)@.datas.len() + x) as usize,
        ),
{
    let ghost s0 = store@;
    let ghost d0 = dir@;
    let mut k: usize = 0;
    while k < module.datas.len()
        invariant
            k <= module@.datas.len(),
            store@.datas == s0.datas + Seq::new(
                k as nat,
                |x: int| DataV { data: module@.datas[x].init },
            ),
            dir@ == d0 + Seq::new(k as nat, |x: int| (s0.datas.len() + x) as usize),
            store@ == (StoreV { datas: store@.datas, ..s0 }),
        decreases module.datas.len() - k,
    {
        let ghost head = store@;
        let a = store.datas.len();
        store.datas.push(Data { data: copy_bytes(&module.datas[k].init) });
        dir.push(a);
        proof {
            assert forall|ix: int| 0 <= ix < store@.datas.len() implies store@.datas[ix]
                == (s0.datas + Seq::new(
                (k + 1) as nat,
                |x: int| DataV { data: module@.datas[x].init },
            ))[ix] by {
                let rhs = s0.datas + Seq::new(
                    (k + 1) as nat,
                |x: int| DataV { data: module@.datas[x].init },
                );
                if ix < s0.datas.len() {
                    assert(head.datas[ix] == s0.datas[ix]);
                } else if ix < s0.datas.len() + k {
                    let j = ix - s0.datas.len();
                    assert(head.datas[ix] == Seq::new(
                        k as nat,
                |x: int| DataV { data: module@.datas[x].init },
                    )[j]);
                    assert(rhs[ix] == Seq::new(
                        (k + 1) as nat,
                |x: int| DataV { data: module@.datas[x].init },
                    )[j]);
                }
            }
            assert(store@.datas =~= s0.datas + Seq::new(
                (k + 1) as nat,
                |x: int| DataV { data: module@.datas[x].init },
            ));
            assert(dir@ =~= d0 + Seq::new((k + 1) as nat, |x: int| (s0.datas.len() + x) as usize));
        }
        k += 1;
    }
}

/// The instance's own copy of the module's type vector.
#[verifier::rlimit(100)]
#[verifier::loop_isolation(false)]
fn copy_types(module: &Module) -> (r: Vec<types::Function>)
    ensures
        r@.map_values(|f: types::Function| f@) == module@.types,
{
    let mut types_v: Vec<types::Function> = Vec::new();
    let mut k: usize = 0;
    while k < module.types.len()
        invariant
            k <= module@.types.len(),
            types_v@.map_values(|f: types::Function| f@) == module@.types.take(k as int),
        decreases module.types.len() - k,
    {
        types_v.push(module.types[k].duplicate());
        proof {
            assert(types_v@.map_values(|f: types::Function| f@) =~= module@.types.take(k + 1));
        }
        k += 1;
    }
    proof {
        assert(module@.types.take(module@.types.len() as int) =~= module@.types);
    }
    types_v
}

/// Resolves the module's exports through the fresh directories.
#[verifier::rlimit(100)]
#[verifier::loop_isolation(false)]
fn build_exports(
    module: &Module,
    funct: &Vec<Addr>,
    tables_dir: &Vec<Addr>,
    mems_dir: &Vec<Addr>,
    globals_dir: &Vec<Addr>,
) -> (r: Vec<Export>)
    requires
        module_shape_ok(module@),
        funct@.len() == count_imports(module@.imports).0 + module@.funcs.len(),
        tables_dir@.len() == count_imports(module@.imports).1 + module@.tables.len(),
        mems_dir@.len() == count_imports(module@.imports).2 + module@.mems.len(),
        globals_dir@.len() == count_imports(module@.imports).3 + module@.globals.len(),
    ensures
        r@.map_values(|e: Export| e@) == Seq::new(
            module@.exports.len(),
            |x: int| ExportV {
                name: module@.exports[x].name,
                value: export_value_of(
                    funct@,
                    tables_dir@,
                    mems_dir@,
                    globals_dir@,
                    module@.exports[x].desc,
                ),
            },
        ),
{
    let mut exports_vec: Vec<Export> = Vec::new();
    let mut k: usize = 0;
    while k < module.exports.len()
        invariant
            k <= module@.exports.len(),
            exports_vec@.map_values(|e: Export| e@) == Seq::new(
                k as nat,
                |x: int| ExportV {
                    name: module@.exports[x].name,
                    value: export_value_of(
                        funct@,
                        tables_dir@,
                        mems_dir@,
                        globals_dir@,
                        module@.exports[x].desc,
                    ),
                },
            ),
        decreases module.exports.len() - k,
    {
        proof {
            assert(export_desc_ok(module@, (#[trigger] module@.exports[k as int]).desc));
        }
        let value = match module.exports[k].desc {
            modules::ExportDesc::Func(i) => ExternalVal::Fun(funct[i]),
            modules::ExportDesc::Table(i) => ExternalVal::Table(tables_dir[i]),
            modules::ExportDesc::Mem(i) => ExternalVal::Mem(mems_dir[i]),
            modules::ExportDesc::Global(i) => ExternalVal::Global(globals_dir[i]),
        };
        let ghost head = exports_vec@.map_values(|e: Export| e@);
        exports_vec.push(Export { name: module.exports[k].name.clone(), value });
        proof {
            assert(module@.exports[k as int] == module.exports@[k as int]@);
            assert forall|ix: int| 0 <= ix < exports_vec@.len() implies (#[trigger] exports_vec@[ix])@
                == Seq::new(
                (k + 1) as nat,
                |x: int| ExportV {
                    name: module@.exports[x].name,
                    value: export_value_of(
                        funct@,
                        tables_dir@,
                        mems_dir@,
                        globals_dir@,
                        module@.exports[x].desc,
                    ),
                },
            )[ix] by {
                if ix < k {
                    assert(exports_vec@[ix]@ == head[ix]);
                    assert(head[ix] == Seq::new(
                        k as nat,
                |x: int| ExportV {
                    name: module@.exports[x].name,
                    value: export_value_of(
                        funct@,
                        tables_dir@,
                        mems_dir@,
                        globals_dir@,
                        module@.exports[x].desc,
                    ),
                },
                    )[ix]);
                    assert(Seq::new(
                        (k + 1) as nat,
                |x: int| ExportV {
                    name: module@.exports[x].name,
                    value: export_value_of(
                        funct@,
                        tables_dir@,
                        mems_dir@,
                        globals_dir@,
                        module@.exports[x].desc,
                    ),
                },
                    )[ix] == Seq::new(
                        k as nat,
                |x: int| ExportV {
                    name: module@.exports[x].name,
                    value: export_value_of(
                        funct@,
                        tables_dir@,
                        mems_dir@,
                        globals_dir@,
                        module@.exports[x].desc,
                    ),
                },
                    )[ix]);
                }
            }
            assert(exports_vec@.map_values(|e: Export| e@) =~= Seq::new(
                (k + 1) as nat,
                |x: int| ExportV {
                    name: module@.exports[x].name,
                    value: export_value_of(
                        funct@,
                        tables_dir@,
                        mems_dir@,
                        globals_dir@,
                        module@.exports[x].desc,
                    ),
                },
            ));
        }
        k += 1;
    }
    exports_vec
}

/// An element-wise copy of an address vector.
fn copy_addrs(a: &Vec<Addr>) -> (r: Vec<Addr>)
    ensures
        r@ == a@,
{
    let mut out: Vec<Addr> = Vec::new();
    let mut i: usize = 0;
    while i < a.len()
        invariant
            i <= a.len(),
            out@ == a@.take(i as int),
        decreases a.len() - i,
    {
        out.push(a[i]);
        proof {
            assert(out@ =~= a@.take(i as int + 1));
        }
        i += 1;
    }
    proof {
        assert(a@.take(a@.len() as int) =~= a@);
    }
    out
}

/// Applies the module's active element segments, exactly as
/// `apply_elems` states it: step five of the instantiation protocol.
#[verifier::rlimit(100)]
#[verifier::loop_isolation(false)]
fn apply_elem_segments(
    store: &mut Store,
    module: &Module,
    inst_addr: usize,
    gimp: &Vec<Addr>,
) -> (r: Option<Error>)
    requires
        inst_addr < old(store)@.modules.len(),
    ensures
        ({
            let out = apply_elems(
                old(store)@,
                old(store)@.modules[inst_addr as int],
                module@,
                gimp@,
                0,
            );
            &&& final(store)@ == out.0
            &&& r == out.1
        }),
{
    let ghost s_begin = store@;
    let ghost inst0 = store@.modules[inst_addr as int];
    let mut k: usize = 0;
    while k < module.elems.len()
        invariant
            k <= module@.elems.len(),
            inst_addr < store@.modules.len(),
            store@.modules == s_begin.modules,
            store@.funcinstances == s_begin.funcinstances,
            store@.globals == s_begin.globals,
            store@.mems == s_begin.mems,
            store@.datas == s_begin.datas,
            store@.tables.len() == s_begin.tables.len(),
            store@.elems.len() == s_begin.elems.len(),
            apply_elems(s_begin, inst0, module@, gimp@, 0) == apply_elems(
                store@,
                inst0,
                module@,
                gimp@,
                k as nat,
            ),
        decreases module.elems.len() - k,
    {
        proof {
            assert(module@.elems[k as int] == module.elems@[k as int]@);
        }
        match &module.elems[k].mode {
            modules::ElemMode::Active(tidx_ref, off) => {
                let ghost head = store@;
                let tidx = *tidx_ref;
                if tidx >= store.modules[inst_addr].tables.len() {
                    return Option::Some(Error::UndefinedTable(tidx));
                }
                let ta = store.modules[inst_addr].tables[tidx];
                if ta >= store.tables.len() {
                    return Option::Some(Error::UndefinedTable(ta));
                }
                if k >= store.modules[inst_addr].elems.len() {
                    return Option::Some(Error::ModuleValidate);
                }
                let ea = store.modules[inst_addr].elems[k];
                if ea >= store.elems.len() {
                    return Option::Some(Error::ModuleValidate);
                }
                let v = match eval_const(store, &store.modules[inst_addr].funct, gimp, off) {
                    Result::Ok(v) => v,
                    Result::Err(e) => return Option::Some(e),
                };
                let d: u32 = match v {
                    Val::Num(Num::I32(d)) => d,
                    _ => return Option::Some(Error::TypeMismatch),
                };
                let n = store.elems[ea].elem.len();
                if d as u128 + n as u128 > store.tables[ta].elem.len() as u128 {
                    return Option::Some(Error::OutOfBoundTableAccess);
                }
                let et = store.elems[ea].elemtype;
                let mut seg = Elem { elemtype: et, elem: Vec::new() };
                store.elems.set_and_swap(ea, &mut seg);
                proof {
                    assert(store@.tables == head.tables);
                }
                let tt = store.tables[ta].tabletype;
                proof {
                    assert(tt == store@.tables[ta as int].tabletype);
                }
                let mut t = Table { tabletype: tt, elem: Vec::new() };
                store.tables.set_and_swap(ta, &mut t);
                let ghost telem0 = t.elem@;
                let mut j: usize = 0;
                while j < seg.elem.len()
                    invariant
                        j <= seg.elem@.len(),
                        d as int + seg.elem@.len() <= telem0.len(),
                        telem0.len() <= usize::MAX,
                        t.tabletype == tt,
                        t.elem@.len() == telem0.len(),
                        forall|i: int| 0 <= i < d as int ==> #[trigger] t.elem@[i] == telem0[i],
                        forall|i: int| d as int + j <= i < telem0.len() ==> #[trigger] t.elem@[i]
                            == telem0[i],
                        forall|i: int| 0 <= i < j ==> #[trigger] t.elem@[d as int + i]
                            == seg.elem@[i],
                    decreases seg.elem.len() - j,
                {
                    t.elem.set(d as usize + j, seg.elem[j]);
                    j += 1;
                }
                proof {
                    assert forall|i: int| 0 <= i < telem0.len() implies #[trigger] t.elem@[i]
                        == splice(telem0, d as int, seg.elem@)[i] by {
                        if i < d as int {
                        } else if i < d as int + seg.elem@.len() {
                            assert(t.elem@[d as int + (i - d as int)] == seg.elem@[i - d as int]);
                        }
                    }
                    assert(t.elem@ =~= splice(telem0, d as int, seg.elem@));
                }
                let ghost tfin = t@;
                store.tables.set(ta, t);
                proof {
                    let s2 = StoreV {
                        tables: head.tables.update(
                            ta as int,
                            TableV {
                                tabletype: head.tables[ta as int].tabletype,
                                elem: splice(
                                    head.tables[ta as int].elem,
                                    d as int,
                                    head.elems[ea as int].elem,
                                ),
                            },
                        ),
                        elems: head.elems.update(
                            ea as int,
                            ElemV {
                                elemtype: head.elems[ea as int].elemtype,
                                elem: Seq::empty(),
                            },
                        ),
                        ..head
                    };
                    assert(telem0 == head.tables[ta as int].elem);
                    assert(seg.elem@ == head.elems[ea as int].elem);
                    assert(tfin.tabletype == head.tables[ta as int].tabletype);
                    assert(tfin.elem == splice(
                        head.tables[ta as int].elem,
                        d as int,
                        head.elems[ea as int].elem,
                    ));
                    assert(tfin == s2.tables[ta as int]);
                    assert forall|i: int| 0 <= i < store@.tables.len() implies #[trigger] store@.tables[i]
                        == s2.tables[i] by {
                        if i != ta as int {
                            assert(store@.tables[i] == head.tables[i]);
                        } else {
                            assert(store@.tables[i] == tfin);
                        }
                    }
                    assert(store@.tables =~= s2.tables);
                    assert forall|i: int| 0 <= i < store@.elems.len() implies #[trigger] store@.elems[i]
                        == s2.elems[i] by {
                        if i != ea as int {
                            assert(store@.elems[i] == head.elems[i]);
                        }
                    }
                    assert(store@.elems =~= s2.elems);
                    assert(store@ == s2);
                    assert(apply_elems(head, inst0, module@, gimp@, k as nat) == apply_elems(
                        s2,
                        inst0,
                        module@,
                        gimp@,
                        (k + 1) as nat,
                    ));
                }
            },
            _ => {
                proof {
                    assert(apply_elems(store@, inst0, module@, gimp@, k as nat) == apply_elems(
                        store@,
                        inst0,
                        module@,
                        gimp@,
                        (k + 1) as nat,
                    ));
                }
            },
        }
        k += 1;
    }
    Option::None
}

/// Applies the module's active data segments, exactly as `apply_datas`
/// states it: step six of the instantiation protocol.
#[verifier::rlimit(100)]
#[verifier::loop_isolation(false)]
fn apply_data_segments(
    store: &mut Store,
    module: &Module,
    inst_addr: usize,
    gimp: &Vec<Addr>,
) -> (r: Option<Error>)
    requires
        inst_addr < old(store)@.modules.len(),
    ensures
        ({
            let out = apply_datas(
                old(store)@,
                old(store)@.modules[inst_addr as int],
                module@,
                gimp@,
                0,
            );
            &&& final(store)@ == out.0
            &&& r == out.1
        }),
{
    let ghost s_begin = store@;
    let ghost inst0 = store@.modules[inst_addr as int];
    let mut k: usize = 0;
    while k < module.datas.len()
        invariant
            k <= module@.datas.len(),
            inst_addr < store@.modules.len(),
            store@.modules == s_begin.modules,
            store@.funcinstances == s_begin.funcinstances,
            store@.globals == s_begin.globals,
            store@.tables == s_begin.tables,
            store@.elems == s_begin.elems,
            store@.mems.len() == s_begin.mems.len(),
            store@.datas.len() == s_begin.datas.len(),
            apply_datas(s_begin, inst0, module@, gimp@, 0) == apply_datas(
                store@,
                inst0,
                module@,
                gimp@,
                k as nat,
            ),
        decreases module.datas.len() - k,
    {
        proof {
            assert(module@.datas[k as int] == module.datas@[k as int]@);
        }
        match &module.datas[k].mode {
            modules::DataMode::Active(midx_ref, off) => {
                let ghost head = store@;
                let midx = *midx_ref;
                if midx >= store.modules[inst_addr].mems.len() {
                    return Option::Some(Error::UndefinedMem(midx));
                }
                let ma = store.modules[inst_addr].mems[midx];
                if ma >= store.mems.len() {
                    return Option::Some(Error::UndefinedMem(ma));
                }
                if k >= store.modules[inst_addr].datas.len() {
                    return Option::Some(Error::ModuleValidate);
                }
                let da = store.modules[inst_addr].datas[k];
                if da >= store.datas.len() {
                    return Option::Some(Error::ModuleValidate);
                }
                let v = match eval_const(store, &store.modules[inst_addr].funct, gimp, off) {
                    Result::Ok(v) => v,
                    Result::Err(e) => return Option::Some(e),
                };
                let d: u32 = match v {
                    Val::Num(Num::I32(d)) => d,
                    _ => return Option::Some(Error::TypeMismatch),
                };
                let n = store.datas[da].data.len();
                if d as u128 + n as u128 > store.mems[ma].data.len() as u128 {
                    return Option::Some(Error::OutOfBoundMemoryAccess);
                }
                let mut seg = Data { data: Vec::new() };
                store.datas.set_and_swap(da, &mut seg);
                proof {
                    assert(store@.mems == head.mems);
                }
                let mt = store.mems[ma].memtype;
                proof {
                    assert(mt == store@.mems[ma as int].memtype);
                }
                let mut mem = Mem { memtype: mt, data: Vec::new() };
                store.mems.set_and_swap(ma, &mut mem);
                let ghost mdata0 = mem.data@;
                let mut j: usize = 0;
                while j < seg.data.len()
                    invariant
                        j <= seg.data@.len(),
                        d as int + seg.data@.len() <= mdata0.len(),
                        mdata0.len() <= usize::MAX,
                        mem.memtype == mt,
                        mem.data@.len() == mdata0.len(),
                        forall|i: int| 0 <= i < d as int ==> #[trigger] mem.data@[i] == mdata0[i],
                        forall|i: int| d as int + j <= i < mdata0.len() ==> #[trigger] mem.data@[i]
                            == mdata0[i],
                        forall|i: int| 0 <= i < j ==> #[trigger] mem.data@[d as int + i]
                            == seg.data@[i],
                    decreases seg.data.len() - j,
                {
                    mem.data.set(d as usize + j, seg.data[j]);
                    j += 1;
                }
                proof {
                    assert forall|i: int| 0 <= i < mdata0.len() implies #[trigger] mem.data@[i]
                        == splice(mdata0, d as int, seg.data@)[i] by {
                        if i < d as int {
                        } else if i < d as int + seg.data@.len() {
                            assert(mem.data@[d as int + (i - d as int)] == seg.data@[i - d as int]);
                        }
                    }
                    assert(mem.data@ =~= splice(mdata0, d as int, seg.data@));
                }
                let ghost mfin = mem@;
                store.mems.set(ma, mem);
                proof {
                    let s2 = StoreV {
                        mems: head.mems.update(
                            ma as int,
                            MemV {
                                memtype: head.mems[ma as int].memtype,
                                data: splice(
                                    head.mems[ma as int].data,
                                    d as int,
                                    head.datas[da as int].data,
                                ),
                            },
                        ),
                        datas: head.datas.update(da as int, DataV { data: Seq::empty() }),
                        ..head
                    };
                    assert(mdata0 == head.mems[ma as int].data);
                    assert(seg.data@ == head.datas[da as int].data);
                    assert(mfin.memtype == head.mems[ma as int].memtype);
                    assert(mfin.data == splice(
                        head.mems[ma as int].data,
                        d as int,
                        head.datas[da as int].data,
                    ));
                    assert(mfin == s2.mems[ma as int]);
                    assert forall|i: int| 0 <= i < store@.mems.len() implies #[trigger] store@.mems[i]
                        == s2.mems[i] by {
                        if i != ma as int {
                            assert(store@.mems[i] == head.mems[i]);
                        } else {
                            assert(store@.mems[i] == mfin);
                        }
                    }
                    assert(store@.mems =~= s2.mems);
                    assert forall|i: int| 0 <= i < store@.datas.len() implies #[trigger] store@.datas[i]
                        == s2.datas[i] by {
                        if i != da as int {
                            assert(store@.datas[i] == head.datas[i]);
                        }
                    }
                    assert(store@.datas =~= s2.datas);
                    assert(store@ == s2);
                    assert(apply_datas(head, inst0, module@, gimp@, k as nat) == apply_datas(
                        s2,
                        inst0,
                        module@,
                        gimp@,
                        (k + 1) as nat,
                    ));
                }
            },
            modules::DataMode::Passive => {
                proof {
                    assert(apply_datas(store@, inst0, module@, gimp@, k as nat) == apply_datas(
                        store@,
                        inst0,
                        module@,
                        gimp@,
                        (k + 1) as nat,
                    ));
                }
            },
        }
        k += 1;
    }
    Option::None
}

/// Allocates a module's own functions, tables, memories, globals and
/// segments, wires the exports, and pushes the fresh instance: steps
/// three and four of the instantiation protocol, exactly as
/// `alloc_store` states them.
#[verifier::rlimit(100)]
fn alloc_module(
    store: &mut Store,
    module: &Module,
    fa: Vec<Addr>,
    ta: Vec<Addr>,
    ma: Vec<Addr>,
    ga: Vec<Addr>,
) -> (r: usize)
    requires
        module_shape_ok(module@),
        fa@.len() == count_imports(module@.imports).0,
        ta@.len() == count_imports(module@.imports).1,
        ma@.len() == count_imports(module@.imports).2,
        ga@.len() == count_imports(module@.imports).3,
        forall|j: int| 0 <= j < ga@.len() ==> #[trigger] ga@[j] < old(store)@.globals.len(),
    ensures
        final(store)@ == alloc_store(old(store)@, module@, fa@, ta@, ma@, ga@),
        r == old(store)@.modules.len(),
{
    let ghost s0 = store@;
    let ghost fa0 = fa@;
    let ghost ta0 = ta@;
    let ghost ma0 = ma@;
    let ghost ga0 = ga@;
    let inst_addr = store.modules.len();
    let mut funct = fa;
    alloc_funcs(store, module, &mut funct, inst_addr);
    let gvals = eval_globals(store, module, &funct, &ga);
    proof {
        assert forall|x: int| 0 <= x < module@.globals.len() implies const_eval(
            store@,
            funct@,
            ga0,
            module@.globals[x].init,
        ) == const_eval(s0, funct@, ga0, module@.globals[x].init) by {
            lemma_const_eval_globals(store@, s0, funct@, ga0, module@.globals[x].init);
        }
        assert(gvals@ =~= Seq::new(
            module@.globals.len(),
            |x: int| const_eval(s0, funct@, ga0, module@.globals[x].init)->Ok_0,
        ));
    }
    let mut tables_dir = ta;
    alloc_tables(store, module, &mut tables_dir);
    let mut mems_dir = ma;
    alloc_mems(store, module, &mut mems_dir);
    let mut globals_dir = ga;
    alloc_globals(store, module, &gvals, &mut globals_dir);
    let mut elems_dir: Vec<Addr> = Vec::new();
    alloc_elems(store, module, &funct, &mut elems_dir);
    let mut datas_dir: Vec<Addr> = Vec::new();
    alloc_datas(store, module, &mut datas_dir);
    let types_v = copy_types(module);
    let exports_vec = build_exports(module, &funct, &tables_dir, &mems_dir, &globals_dir);
    store.modules.push(
        ModuleInstance {
            types: types_v,
            funct,
            tables: tables_dir,
            mems: mems_dir,
            globals: globals_dir,
            elems: elems_dir,
            datas: datas_dir,
            exports: exports_vec,
        },
    );
    proof {
        let target = alloc_store(s0, module@, fa0, ta0, ma0, ga0);
        let inst = instance_of(s0, module@, fa0, ta0, ma0, ga0);
        let pushed = store@.modules[store@.modules.len() - 1];
        assert(pushed.types =~= inst.types);
        assert(pushed.funct =~= inst.funct);
        assert(pushed.tables =~= inst.tables);
        assert(pushed.mems =~= inst.mems);
        assert(pushed.globals =~= inst.globals);
        assert(pushed.elems =~= inst.elems);
        assert(pushed.datas =~= inst.datas);
        assert(pushed.exports =~= inst.exports);
        assert(pushed == inst);
        assert(store@.modules =~= target.modules);
        assert(store@.funcinstances =~= target.funcinstances);
        assert(store@.tables =~= target.tables);
        assert(store@.mems =~= target.mems);
        assert(store@.globals =~= target.globals);
        assert(store@.elems =~= target.elems);
        assert(store@.datas =~= target.datas);
        assert(store@ == target);
    }
    inst_addr
}

/// Whether a table can take `n` more elements within its declared and
/// absolute bounds.
pub open spec fn table_grow_fits(t: TableV, n: u32) -> bool {
    &&& t.elem.len() + n <= MAX_TABLE_SIZE
    &&& match t.tabletype.limits.max {
        Option::Some(max) => t.elem.len() + n <= max,
        Option::None => true,
    }
}

/// Whether a memory can take `n` more pages within its declared and
/// absolute bounds, and the machine's address space.
pub open spec fn mem_grow_fits(m: MemV, n: u32) -> bool {
    &&& m.data.len() / PAGE_SIZE as nat + n <= MAX_PAGES
    &&& match m.memtype.limits.max {
        Option::Some(max) => m.data.len() / PAGE_SIZE as nat + n <= max,
        Option::None => true,
    }
    &&& m.data.len() + n * PAGE_SIZE <= usize::MAX
}

} // verus!
