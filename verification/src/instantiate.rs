//! What instantiating a module does to the store, as mathematical values.

use vstd::prelude::*;
use crate::backing::ImportBacking;
use crate::global::{encode_value, Global, GlobalView};
use crate::memory::{creatable, Memory};
use crate::module::{DataInitializer, ModuleInner, TableInitializer};
use crate::store::StoreView;
use crate::table::{empty_entries, Table, TableView};
use crate::types::{
    split_index, to_unsigned, FuncIndex, GlobalDescriptor, GlobalInit, Initializer,
    LocalFuncIndex, LocalOrImport, MemoryDescriptor, MemoryIndex, TableDescriptor, TableIndex,
    Value,
};
use crate::vm;

verus! {

impl StoreView {
    /// Whether `newer` holds every item of this store, at the same place
    /// and of the same descriptor.
    pub open spec fn kept_by(self, newer: StoreView) -> bool {
        &&& self.memories.len() <= newer.memories.len()
        &&& self.tables.len() <= newer.tables.len()
        &&& self.globals.len() <= newer.globals.len()
        &&& forall|i: int|
            0 <= i < self.memories.len() ==> (#[trigger] newer.memories[i]).desc
                == self.memories[i].desc
        &&& forall|i: int|
            0 <= i < self.tables.len() ==> (#[trigger] newer.tables[i]).desc == self.tables[i].desc
        &&& forall|i: int|
            0 <= i < self.globals.len() ==> (#[trigger] newer.globals[i]).desc
                == self.globals[i].desc
    }

    /// This store after a memory was made from each of `descs`, in order.
    pub open spec fn create_memories(self, descs: Seq<MemoryDescriptor>) -> StoreView
        decreases descs.len(),
    {
        if descs.len() == 0 {
            self
        } else {
            self.create_memories(descs.drop_last()).create_memory(descs.last())
        }
    }

    /// Whether a memory can be made from each of `descs`, one after the
    /// other: none is shared, and each can be created once those before it
    /// have their regions.
    pub open spec fn memories_creatable(self, descs: Seq<MemoryDescriptor>) -> bool
        decreases descs.len(),
    {
        descs.len() == 0 || {
            &&& self.memories_creatable(descs.drop_last())
            &&& !descs.last().shared
            &&& creatable(descs.last(), self.create_memories(descs.drop_last()).next)
        }
    }

    /// This store after a table was made from each of `descs`, in order.
    pub open spec fn create_tables(self, descs: Seq<TableDescriptor>) -> StoreView {
        StoreView {
            tables: self.tables + Seq::new(
                descs.len(),
                |i: int|
                    TableView {
                        desc: descs[i],
                        elements: empty_entries(descs[i].minimum as nat),
                    },
            ),
            ..self
        }
    }

    /// The value that `init` gives in this store, where it names an
    /// imported global that is there.
    pub open spec fn initial_value(self, init: Initializer, imported: Seq<Global>) -> Value {
        match init {
            Initializer::Const(value) => value,
            Initializer::GetGlobal(index) => self.globals[imported[index.0 as int].addr as int].value(),
        }
    }

    /// The global that is made from `init` in this store. Its type is that
    /// of its first value.
    pub open spec fn initial_global(self, init: GlobalInit, imported: Seq<Global>) -> GlobalView {
        let value = self.initial_value(init.init, imported);
        GlobalView {
            desc: GlobalDescriptor { mutable: init.desc.mutable, ty: value.spec_ty() },
            data: encode_value(value),
        }
    }

    /// This store after a global was made from each of `inits`, in order.
    /// The imported globals are read as this store holds them.
    pub open spec fn create_globals(self, inits: Seq<GlobalInit>, imported: Seq<Global>) -> StoreView {
        StoreView {
            globals: self.globals + Seq::new(
                inits.len(),
                |i: int| self.initial_global(inits[i], imported),
            ),
            ..self
        }
    }
}

/// The handles of the memories that are made from `descs` in a store that
/// holds `first` memories already.
pub open spec fn new_memories(first: nat, descs: Seq<MemoryDescriptor>) -> Seq<Memory> {
    Seq::new(descs.len(), |i: int| Memory { desc: descs[i], addr: (first + i) as usize })
}

/// The handles of the tables that are made from `descs` in a store that
/// holds `first` tables already.
pub open spec fn new_tables(first: nat, descs: Seq<TableDescriptor>) -> Seq<Table> {
    Seq::new(descs.len(), |i: int| Table { desc: descs[i], addr: (first + i) as usize })
}

/// The handles of the globals that are made from `inits` in `store`.
pub open spec fn new_globals(store: StoreView, inits: Seq<GlobalInit>, imported: Seq<Global>) -> Seq<
    Global,
> {
    Seq::new(
        inits.len(),
        |i: int|
            Global {
                desc: store.initial_global(inits[i], imported).desc,
                addr: (store.globals.len() + i) as usize,
            },
    )
}

/// Whether each global of `inits` that starts with the value of an imported
/// global names one that was imported.
pub open spec fn globals_resolvable(inits: Seq<GlobalInit>, imported: Seq<Global>) -> bool {
    forall|i: int|
        0 <= i < inits.len() ==> ((#[trigger] inits[i]).init matches Initializer::GetGlobal(index)
            ==> index.0 < imported.len())
}

/// Making memories changes nothing else in the store, and keeps what was
/// there.
pub proof fn lemma_create_memories(store: StoreView, descs: Seq<MemoryDescriptor>)
    ensures
        store.create_memories(descs).memories.len() == store.memories.len() + descs.len(),
        store.create_memories(descs).tables == store.tables,
        store.create_memories(descs).globals == store.globals,
        forall|i: int|
            0 <= i < store.memories.len() ==> store.create_memories(descs).memories[i]
                == store.memories[i],
        forall|i: int|
            0 <= i < descs.len() ==> (#[trigger] store.create_memories(
                descs,
            ).memories[store.memories.len() + i]).desc == descs[i] && store.create_memories(
                descs,
            ).memories[store.memories.len() + i].bytes == crate::sys::zeros(
                descs[i].minimum.byte_count() as nat,
            ),
    decreases descs.len(),
{
    if descs.len() > 0 {
        lemma_create_memories(store, descs.drop_last());
        assert(store.create_memories(descs) == store.create_memories(
            descs.drop_last(),
        ).create_memory(descs.last()));
    }
}

/// Where memories can be made from all of `descs`, they can be made from
/// the first `n` of them.
pub proof fn lemma_creatable_prefix(store: StoreView, descs: Seq<MemoryDescriptor>, n: int)
    requires
        store.memories_creatable(descs),
        0 <= n <= descs.len(),
    ensures
        store.memories_creatable(descs.subrange(0, n)),
    decreases descs.len(),
{
    if n < descs.len() {
        lemma_creatable_prefix(store, descs.drop_last(), n);
        assert(descs.drop_last().subrange(0, n) =~= descs.subrange(0, n));
    } else {
        assert(descs.subrange(0, n) =~= descs);
    }
}

/// Whether each of `memories` names a memory of `store`.
pub open spec fn memories_valid(memories: Seq<Memory>, store: StoreView) -> bool {
    forall|i: int| 0 <= i < memories.len() ==> (#[trigger] memories[i]).valid_in(store)
}

/// Whether each of `tables` names a table of `store`.
pub open spec fn tables_valid(tables: Seq<Table>, store: StoreView) -> bool {
    forall|i: int| 0 <= i < tables.len() ==> (#[trigger] tables[i]).valid_in(store)
}

/// Whether each of `globals` names a global of `store`.
pub open spec fn globals_valid(globals: Seq<Global>, store: StoreView) -> bool {
    forall|i: int| 0 <= i < globals.len() ==> (#[trigger] globals[i]).valid_in(store)
}

/// The offset that `init` gives in `store`: a 32-bit integer, read as
/// unsigned. There is none where `init` is of another type or names a
/// global that was not imported.
pub open spec fn initializer_base(store: StoreView, init: Initializer, imported: Seq<Global>) -> Option<
    usize,
> {
    match init {
        Initializer::Const(Value::I32(offset)) => Some(to_unsigned(offset as int, 4) as usize),
        Initializer::Const(_) => None,
        Initializer::GetGlobal(index) => if index.0 < imported.len() {
            match store.globals[imported[index.0 as int].addr as int].value() {
                Value::I32(offset) => Some(to_unsigned(offset as int, 4) as usize),
                _ => None,
            }
        } else {
            None
        },
    }
}

/// The memory that the memory index `index` of `module` names: one of the
/// imported memories, which take the low indices, or one of `memories`,
/// the memories that the module defines.
pub open spec fn memory_at(
    module: &ModuleInner,
    imports: &ImportBacking,
    memories: Seq<Memory>,
    index: MemoryIndex,
) -> Option<Memory> {
    match split_index(index.0, module.imported_memories.len() as nat) {
        LocalOrImport::Local(local) => if local < memories.len() {
            Some(memories[local as int])
        } else {
            None
        },
        LocalOrImport::Import(imported) => if imported < imports.memories.len() {
            Some(imports.memories[imported as int])
        } else {
            None
        },
    }
}

/// Whether `init` can be applied in `store`. An initializer without bytes
/// always can. Another must have an offset and name a memory; its bytes
/// must end within the minimum size of a memory that the module defines, or
/// within the current size of one that it imports.
pub open spec fn data_applicable(
    store: StoreView,
    module: &ModuleInner,
    imports: &ImportBacking,
    memories: Seq<Memory>,
    init: &DataInitializer,
) -> bool {
    init.data.len() == 0 || {
        &&& initializer_base(store, init.base, imports.globals@) matches Some(base)
        &&& memory_at(module, imports, memories, init.memory_index) matches Some(memory)
        &&& match split_index(init.memory_index.0, module.imported_memories.len() as nat) {
            LocalOrImport::Local(_) => base + init.data.len() <= memory.desc.minimum.byte_count(),
            LocalOrImport::Import(_) => base + init.data.len()
                <= store.memories[memory.addr as int].bytes.len(),
        }
    }
}

/// `store` after `init` was applied: the bytes of `init` stand in the
/// memory it names, from its offset on.
pub open spec fn data_initialized(
    store: StoreView,
    module: &ModuleInner,
    imports: &ImportBacking,
    memories: Seq<Memory>,
    init: &DataInitializer,
) -> StoreView {
    if init.data.len() == 0 {
        store
    } else {
        store.write_memory(
            memory_at(module, imports, memories, init.memory_index).unwrap().addr as int,
            initializer_base(store, init.base, imports.globals@).unwrap() as int,
            init.data@,
        )
    }
}

/// `store` after the first `n` data initializers of `module` were applied,
/// in the order of the module.
pub open spec fn all_data_initialized(
    store: StoreView,
    module: &ModuleInner,
    imports: &ImportBacking,
    memories: Seq<Memory>,
    n: nat,
) -> StoreView
    decreases n,
{
    if n == 0 {
        store
    } else {
        data_initialized(
            all_data_initialized(store, module, imports, memories, (n - 1) as nat),
            module,
            imports,
            memories,
            &module.data_initializers[n - 1],
        )
    }
}

/// Whether the first `n` data initializers of `module` can be applied one
/// after the other, starting in `store`.
pub open spec fn all_data_applicable(
    store: StoreView,
    module: &ModuleInner,
    imports: &ImportBacking,
    memories: Seq<Memory>,
    n: nat,
) -> bool
    decreases n,
{
    n == 0 || {
        &&& all_data_applicable(store, module, imports, memories, (n - 1) as nat)
        &&& data_applicable(
            all_data_initialized(store, module, imports, memories, (n - 1) as nat),
            module,
            imports,
            memories,
            &module.data_initializers[n - 1],
        )
    }
}

/// Where the first `n` data initializers can be applied, so can the first
/// `k` of them.
pub proof fn lemma_data_applicable_prefix(
    store: StoreView,
    module: &ModuleInner,
    imports: &ImportBacking,
    memories: Seq<Memory>,
    n: nat,
    k: nat,
)
    requires
        all_data_applicable(store, module, imports, memories, n),
        k <= n,
    ensures
        all_data_applicable(store, module, imports, memories, k),
    decreases n,
{
    if k < n {
        lemma_data_applicable_prefix(store, module, imports, memories, (n - 1) as nat, k);
    }
}

/// Writing to a memory puts the bytes where they were to go and changes
/// nothing else: not another byte of that memory, not its size or address,
/// not another memory, and no table or global.
pub proof fn lemma_write_memory(store: StoreView, addr: int, offset: int, patch: Seq<u8>)
    requires
        0 <= addr < store.memories.len(),
        0 <= offset,
        offset + patch.len() <= store.memories[addr].bytes.len(),
    ensures
        store.kept_by(store.write_memory(addr, offset, patch)),
        store.write_memory(addr, offset, patch).memories.len() == store.memories.len(),
        store.write_memory(addr, offset, patch).memories[addr].bytes.subrange(
            offset,
            offset + patch.len(),
        ) == patch,
        store.write_memory(addr, offset, patch).memories[addr].bytes.len()
            == store.memories[addr].bytes.len(),
        forall|i: int|
            0 <= i < store.memories[addr].bytes.len() && !(offset <= i < offset + patch.len())
                ==> store.write_memory(addr, offset, patch).memories[addr].bytes[i]
                == store.memories[addr].bytes[i],
        store.write_memory(addr, offset, patch).memories[addr].base == store.memories[addr].base,
        store.write_memory(addr, offset, patch).memories[addr].desc == store.memories[addr].desc,
        forall|other: int|
            0 <= other < store.memories.len() && other != addr ==> store.write_memory(
                addr,
                offset,
                patch,
            ).memories[other] == store.memories[other],
        store.write_memory(addr, offset, patch).tables == store.tables,
        store.write_memory(addr, offset, patch).globals == store.globals,
        store.write_memory(addr, offset, patch).next == store.next,
{
}

/// The table that the table index `index` of `module` names: one of the
/// imported tables, which take the low indices, or one of `tables`, the
/// tables that the module defines.
pub open spec fn table_at(
    module: &ModuleInner,
    imports: &ImportBacking,
    tables: Seq<Table>,
    index: TableIndex,
) -> Option<Table> {
    match split_index(index.0, module.imported_tables.len() as nat) {
        LocalOrImport::Local(local) => if local < tables.len() {
            Some(tables[local as int])
        } else {
            None
        },
        LocalOrImport::Import(imported) => if imported < imports.tables.len() {
            Some(imports.tables[imported as int])
        } else {
            None
        },
    }
}

/// Whether the function `func_index` of `module` has a signature index and
/// code to call: its own, or that of an imported function.
pub open spec fn elem_resolvable(
    module: &ModuleInner,
    imports: &ImportBacking,
    func_index: FuncIndex,
) -> bool {
    &&& func_index.0 < module.func_assoc.len()
    &&& match split_index(func_index.0, module.imported_functions.len() as nat) {
        LocalOrImport::Local(local) => module.func_resolver.spec_get(LocalFuncIndex(local)).is_some(),
        LocalOrImport::Import(imported) => imported < imports.vm_functions.len(),
    }
}

/// The table entry for the function `func_index` of `module`: its code, the
/// context to call it with, and the number of its signature. A function
/// that the module defines is called with `vmctx`, an imported one with the
/// context that it was imported with.
pub open spec fn elem_entry(
    module: &ModuleInner,
    imports: &ImportBacking,
    vmctx: vm::Ctx,
    func_index: FuncIndex,
) -> vm::Anyfunc {
    let sig_id = vm::SigId(module.func_assoc[func_index.0 as int].0);
    match split_index(func_index.0, module.imported_functions.len() as nat) {
        LocalOrImport::Local(local) => vm::Anyfunc {
            func: module.func_resolver.spec_get(LocalFuncIndex(local)).unwrap(),
            ctx: vmctx,
            sig_id,
        },
        LocalOrImport::Import(imported) => vm::Anyfunc {
            func: imports.vm_functions[imported as int].func,
            ctx: imports.vm_functions[imported as int].vmctx,
            sig_id,
        },
    }
}

/// The table entries for `elements`, in order.
pub open spec fn elem_entries(
    module: &ModuleInner,
    imports: &ImportBacking,
    vmctx: vm::Ctx,
    elements: Seq<FuncIndex>,
) -> Seq<vm::Anyfunc> {
    Seq::new(elements.len(), |i: int| elem_entry(module, imports, vmctx, elements[i]))
}

impl StoreView {
    /// This store after `entries` were written to the table at `addr` from
    /// slot `base` on. A table that ends before the last of them is first
    /// made to end with it, by empty slots.
    pub open spec fn init_table(self, addr: int, base: int, entries: Seq<vm::Anyfunc>) -> StoreView {
        let table = self.tables[addr];
        let size = if table.elements.len() < base + entries.len() {
            base + entries.len()
        } else {
            table.elements.len() as int
        };
        self.with_table(
            addr,
            TableView {
                desc: table.desc,
                elements: Seq::new(
                    size as nat,
                    |j: int|
                        if base <= j < base + entries.len() {
                            entries[j - base]
                        } else if j < table.elements.len() {
                            table.elements[j]
                        } else {
                            vm::Anyfunc::spec_null()
                        },
                ),
            },
        )
    }
}

/// Initializing a table puts the entries where they were to go, leaves
/// every other slot that was there as it was and every other new slot
/// empty, and changes nothing else: not another table, and no memory or
/// global.
pub proof fn lemma_init_table(store: StoreView, addr: int, base: int, entries: Seq<vm::Anyfunc>)
    requires
        0 <= addr < store.tables.len(),
        0 <= base,
    ensures
        store.kept_by(store.init_table(addr, base, entries)),
        store.init_table(addr, base, entries).tables.len() == store.tables.len(),
        store.init_table(addr, base, entries).tables[addr].elements.len() == (if store.tables[addr].elements.len()
            < base + entries.len() {
            base + entries.len()
        } else {
            store.tables[addr].elements.len() as int
        }),
        store.init_table(addr, base, entries).tables[addr].elements.subrange(
            base,
            base + entries.len(),
        ) == entries,
        forall|j: int|
            0 <= j < store.tables[addr].elements.len() && !(base <= j < base + entries.len())
                ==> store.init_table(addr, base, entries).tables[addr].elements[j]
                == store.tables[addr].elements[j],
        forall|j: int|
            store.tables[addr].elements.len() <= j < base ==> store.init_table(
                addr,
                base,
                entries,
            ).tables[addr].elements[j] == vm::Anyfunc::spec_null(),
        forall|other: int|
            0 <= other < store.tables.len() && other != addr ==> store.init_table(
                addr,
                base,
                entries,
            ).tables[other] == store.tables[other],
        store.init_table(addr, base, entries).memories == store.memories,
        store.init_table(addr, base, entries).globals == store.globals,
        store.init_table(addr, base, entries).next == store.next,
{
}

/// Whether `init` can be applied in `store`: it has an offset, it names a
/// table, each of its functions can be resolved, and the table reaches its
/// last slot or may grow to reach it.
pub open spec fn elem_applicable(
    store: StoreView,
    module: &ModuleInner,
    imports: &ImportBacking,
    tables: Seq<Table>,
    init: &TableInitializer,
) -> bool {
    &&& initializer_base(store, init.base, imports.globals@) matches Some(base)
    &&& table_at(module, imports, tables, init.table_index) matches Some(table)
    &&& forall|i: int|
        0 <= i < init.elements.len() ==> elem_resolvable(module, imports, #[trigger] init.elements[i])
    &&& store.tables[table.addr as int].elements.len() < base + init.elements.len() ==> {
        &&& base + init.elements.len() <= u32::MAX
        &&& table.desc.maximum matches Some(limit) ==> base + init.elements.len() <= limit
    }
}

/// `store` after `init` was applied: the entries for the functions of
/// `init` stand in the table it names, from its offset on.
pub open spec fn elem_initialized(
    store: StoreView,
    module: &ModuleInner,
    imports: &ImportBacking,
    tables: Seq<Table>,
    vmctx: vm::Ctx,
    init: &TableInitializer,
) -> StoreView {
    store.init_table(
        table_at(module, imports, tables, init.table_index).unwrap().addr as int,
        initializer_base(store, init.base, imports.globals@).unwrap() as int,
        elem_entries(module, imports, vmctx, init.elements@),
    )
}

/// `store` after the first `n` element initializers of `module` were
/// applied, in the order of the module.
pub open spec fn all_elems_initialized(
    store: StoreView,
    module: &ModuleInner,
    imports: &ImportBacking,
    tables: Seq<Table>,
    vmctx: vm::Ctx,
    n: nat,
) -> StoreView
    decreases n,
{
    if n == 0 {
        store
    } else {
        elem_initialized(
            all_elems_initialized(store, module, imports, tables, vmctx, (n - 1) as nat),
            module,
            imports,
            tables,
            vmctx,
            &module.elem_initializers[n - 1],
        )
    }
}

/// Whether the first `n` element initializers of `module` can be applied
/// one after the other, starting in `store`.
pub open spec fn all_elems_applicable(
    store: StoreView,
    module: &ModuleInner,
    imports: &ImportBacking,
    tables: Seq<Table>,
    vmctx: vm::Ctx,
    n: nat,
) -> bool
    decreases n,
{
    n == 0 || {
        &&& all_elems_applicable(store, module, imports, tables, vmctx, (n - 1) as nat)
        &&& elem_applicable(
            all_elems_initialized(store, module, imports, tables, vmctx, (n - 1) as nat),
            module,
            imports,
            tables,
            &module.elem_initializers[n - 1],
        )
    }
}

/// Where the first `n` element initializers can be applied, so can the
/// first `k` of them.
pub proof fn lemma_elems_applicable_prefix(
    store: StoreView,
    module: &ModuleInner,
    imports: &ImportBacking,
    tables: Seq<Table>,
    vmctx: vm::Ctx,
    n: nat,
    k: nat,
)
    requires
        all_elems_applicable(store, module, imports, tables, vmctx, n),
        k <= n,
    ensures
        all_elems_applicable(store, module, imports, tables, vmctx, k),
    decreases n,
{
    if k < n {
        lemma_elems_applicable_prefix(store, module, imports, tables, vmctx, (n - 1) as nat, k);
    }
}

/// The slots `slots` after the first `count` of `entries` were written to
/// them from slot `base` on.
pub open spec fn partly_written(
    slots: Seq<vm::Anyfunc>,
    base: int,
    entries: Seq<vm::Anyfunc>,
    count: int,
) -> Seq<vm::Anyfunc> {
    Seq::new(
        slots.len(),
        |j: int|
            if base <= j < base + count {
                entries[j - base]
            } else {
                slots[j]
            },
    )
}

impl StoreView {
    /// This store after the memories, tables and globals that `module`
    /// defines were made in it, in this order.
    pub open spec fn generate(self, module: &ModuleInner, imports: &ImportBacking) -> StoreView {
        self.create_memories(module.memories@).create_tables(module.tables@).create_globals(
            module.globals@,
            imports.globals@,
        )
    }

    /// This store after `module` was instantiated in it: what the module
    /// defines was made, then its data initializers were applied, then its
    /// element initializers.
    pub open spec fn instantiate(
        self,
        module: &ModuleInner,
        imports: &ImportBacking,
        vmctx: vm::Ctx,
    ) -> StoreView {
        all_elems_initialized(
            all_data_initialized(
                self.generate(module, imports),
                module,
                imports,
                new_memories(self.memories.len(), module.memories@),
                module.data_initializers@.len(),
            ),
            module,
            imports,
            new_tables(self.tables.len(), module.tables@),
            vmctx,
            module.elem_initializers@.len(),
        )
    }

    /// Whether `module` can be instantiated in this store: the store has
    /// room for the handles, the memories of the module can be created, its
    /// globals name imported globals that are there, and its data and
    /// element initializers can be applied in turn.
    pub open spec fn instantiable(
        self,
        module: &ModuleInner,
        imports: &ImportBacking,
        vmctx: vm::Ctx,
    ) -> bool {
        &&& self.memories.len() + module.memories.len() <= usize::MAX
        &&& self.tables.len() + module.tables.len() <= usize::MAX
        &&& self.globals.len() + module.globals.len() <= usize::MAX
        &&& self.memories_creatable(module.memories@)
        &&& globals_resolvable(module.globals@, imports.globals@)
        &&& all_data_applicable(
            self.generate(module, imports),
            module,
            imports,
            new_memories(self.memories.len(), module.memories@),
            module.data_initializers@.len(),
        )
        &&& all_elems_applicable(
            all_data_initialized(
                self.generate(module, imports),
                module,
                imports,
                new_memories(self.memories.len(), module.memories@),
                module.data_initializers@.len(),
            ),
            module,
            imports,
            new_tables(self.tables.len(), module.tables@),
            vmctx,
            module.elem_initializers@.len(),
        )
    }
}

/// What making the items of a module leaves as it was and what it adds: the
/// items that were there stay, each new memory has its minimum size, and
/// each new table has its minimum number of slots.
pub proof fn lemma_generate(store: StoreView, module: &ModuleInner, imports: &ImportBacking)
    ensures
        ({
            let made = store.generate(module, imports);
            &&& store.kept_by(made)
            &&& made.memories.len() == store.memories.len() + module.memories.len()
            &&& made.tables.len() == store.tables.len() + module.tables.len()
            &&& made.globals.len() == store.globals.len() + module.globals.len()
            &&& forall|i: int| 0 <= i < store.memories.len() ==> made.memories[i] == store.memories[i]
            &&& forall|i: int| 0 <= i < store.tables.len() ==> made.tables[i] == store.tables[i]
            &&& forall|i: int| 0 <= i < store.globals.len() ==> made.globals[i] == store.globals[i]
            &&& forall|i: int|
                0 <= i < module.memories.len() ==> (#[trigger] made.memories[store.memories.len()
                    + i]).desc == module.memories[i] && made.memories[store.memories.len()
                    + i].bytes.len() == module.memories[i].minimum.byte_count()
            &&& forall|i: int|
                0 <= i < module.tables.len() ==> (#[trigger] made.tables[store.tables.len()
                    + i]).desc == module.tables[i] && made.tables[store.tables.len()
                    + i].elements.len() == module.tables[i].minimum
        }),
{
    lemma_create_memories(store, module.memories@);
    assert(store.generate(module, imports).memories == store.create_memories(
        module.memories@,
    ).memories);
}

/// Data initializers that can be applied change the bytes of memories and
/// nothing else: every memory keeps its size, its address and its
/// descriptor, and the tables and globals stay as they are.
pub proof fn lemma_data_frame(
    store: StoreView,
    module: &ModuleInner,
    imports: &ImportBacking,
    memories: Seq<Memory>,
    n: nat,
)
    requires
        imports.valid_in(store),
        memories_valid(memories, store),
        all_data_applicable(store, module, imports, memories, n),
    ensures
        ({
            let after = all_data_initialized(store, module, imports, memories, n);
            &&& store.kept_by(after)
            &&& after.memories.len() == store.memories.len()
            &&& forall|a: int|
                0 <= a < store.memories.len() ==> (#[trigger] after.memories[a]).bytes.len()
                    == store.memories[a].bytes.len() && after.memories[a].desc
                    == store.memories[a].desc && after.memories[a].base == store.memories[a].base
            &&& after.tables == store.tables
            &&& after.globals == store.globals
            &&& after.next == store.next
        }),
    decreases n,
{
    if n > 0 {
        lemma_data_frame(store, module, imports, memories, (n - 1) as nat);
        let before = all_data_initialized(store, module, imports, memories, (n - 1) as nat);
        let init = &module.data_initializers[n - 1];
        assert(all_data_initialized(store, module, imports, memories, n) == data_initialized(
            before,
            module,
            imports,
            memories,
            init,
        ));
    }
}

/// Element initializers that can be applied change tables and nothing
/// else: every table keeps its descriptor and does not shrink, and the
/// memories and globals stay as they are.
pub proof fn lemma_elems_frame(
    store: StoreView,
    module: &ModuleInner,
    imports: &ImportBacking,
    tables: Seq<Table>,
    vmctx: vm::Ctx,
    n: nat,
)
    requires
        imports.valid_in(store),
        tables_valid(tables, store),
        all_elems_applicable(store, module, imports, tables, vmctx, n),
    ensures
        ({
            let after = all_elems_initialized(store, module, imports, tables, vmctx, n);
            &&& store.kept_by(after)
            &&& after.tables.len() == store.tables.len()
            &&& forall|a: int|
                0 <= a < store.tables.len() ==> (#[trigger] after.tables[a]).desc
                    == store.tables[a].desc && after.tables[a].elements.len()
                    >= store.tables[a].elements.len()
            &&& after.memories == store.memories
            &&& after.globals == store.globals
            &&& after.next == store.next
        }),
    decreases n,
{
    if n > 0 {
        lemma_elems_frame(store, module, imports, tables, vmctx, (n - 1) as nat);
        let before = all_elems_initialized(store, module, imports, tables, vmctx, (n - 1) as nat);
        let init = &module.elem_initializers[n - 1];
        assert(all_elems_initialized(store, module, imports, tables, vmctx, n) == elem_initialized(
            before,
            module,
            imports,
            tables,
            vmctx,
            init,
        ));
    }
}

} // verus!
