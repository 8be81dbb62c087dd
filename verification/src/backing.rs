//! The backing of an instance: what it imports and what it defines.

use vstd::prelude::*;
use crate::error::{error_views, LinkError, LinkResult};
use crate::export::{Context, Export};
use crate::global::Global;
use crate::import::ImportObject;
use crate::instantiate::{
    all_data_applicable, all_data_initialized, all_elems_applicable, all_elems_initialized,
    data_applicable, data_initialized, elem_applicable, elem_entries, elem_entry,
    elem_initialized, elem_resolvable, globals_resolvable, globals_valid, initializer_base,
    lemma_create_memories, lemma_creatable_prefix, lemma_data_applicable_prefix,
    lemma_data_frame, lemma_elems_applicable_prefix, lemma_elems_frame, memories_valid,
    new_globals, new_memories, new_tables, partly_written, tables_valid,
};
use crate::le::write_bytes;
use crate::linking::{
    accepted, function_imports, global_imports, lemma_next_outcome, link_errors, memory_imports,
    rejected, table_imports,
};
use crate::memory::{lemma_encode_many_bytes, Memory};
use crate::module::{DataInitializer, ModuleInner, TableInitializer};
use crate::store::{Store, StoreView};
use crate::table::{Table, TableView};
use crate::types::{
    local_or_import, FuncIndex, ImportedFuncIndex, Initializer, LocalFuncIndex,
    LocalOrImport, Value,
};
use crate::vm;

verus! {

/// Where generated code finds the records of `memories`.
pub open spec fn memory_refs(memories: Seq<Memory>) -> Seq<vm::LocalMemoryRef> {
    Seq::new(memories.len(), |i: int| vm::LocalMemoryRef(memories[i].addr))
}

/// Where generated code finds the records of `tables`.
pub open spec fn table_refs(tables: Seq<Table>) -> Seq<vm::LocalTableRef> {
    Seq::new(tables.len(), |i: int| vm::LocalTableRef(tables[i].addr))
}

/// Where generated code finds the storage of `globals`.
pub open spec fn global_refs(globals: Seq<Global>) -> Seq<vm::LocalGlobalRef> {
    Seq::new(globals.len(), |i: int| vm::LocalGlobalRef(globals[i].addr))
}

/// What an instance defines: handles to its memories, tables and globals,
/// and what generated code needs to reach them. Each list is indexed by the
/// local index of its kind.
#[derive(Debug)]
pub struct LocalBacking {
    pub memories: Vec<Memory>,
    pub tables: Vec<Table>,
    pub globals: Vec<Global>,
    pub vm_memories: Vec<vm::LocalMemoryRef>,
    pub vm_tables: Vec<vm::LocalTableRef>,
    pub vm_globals: Vec<vm::LocalGlobalRef>,
}

impl LocalBacking {
    /// The records for generated code name the same items as the handles.
    pub open spec fn wf(&self) -> bool {
        &&& self.vm_memories@ == memory_refs(self.memories@)
        &&& self.vm_tables@ == table_refs(self.tables@)
        &&& self.vm_globals@ == global_refs(self.globals@)
    }

    /// Every handle of the backing names an item of `store`.
    pub open spec fn valid_in(&self, store: StoreView) -> bool {
        &&& memories_valid(self.memories@, store)
        &&& tables_valid(self.tables@, store)
        &&& globals_valid(self.globals@, store)
    }

    /// Instantiates what `module` defines. The memories, tables and globals
    /// of the module are made in the store, in this order; then the data
    /// initializers are applied, then the element initializers, each group
    /// in the order of the module. The backing holds the handles of what
    /// was made, by local index, and the places where generated code finds
    /// the records. Each memory of the module has its minimum size.
    pub fn new(
        module: &ModuleInner,
        imports: &ImportBacking,
        store: &mut Store,
        vmctx: vm::Ctx,
    ) -> (backing: LocalBacking)
        requires
            old(store).wf(),
            imports.wf(),
            imports.valid_in(old(store)@),
            old(store)@.instantiable(module, imports, vmctx),
        ensures
            final(store).wf(),
            final(store)@ == old(store)@.instantiate(module, imports, vmctx),
            old(store)@.kept_by(final(store)@),
            backing.wf(),
            backing.valid_in(final(store)@),
            backing.memories@ == new_memories(old(store)@.memories.len(), module.memories@),
            backing.tables@ == new_tables(old(store)@.tables.len(), module.tables@),
            backing.globals@ == new_globals(old(store)@, module.globals@, imports.globals@),
            forall|i: int|
                0 <= i < module.memories.len() ==> (#[trigger] final(store)@.memories[old(
                    store,
                )@.memories.len() + i]).size() == module.memories[i].minimum,
    {
        let ghost s0 = old(store)@;
        let mut memories = Self::generate_memories(module, store);
        proof {
            lemma_create_memories(s0, module.memories@);
            assert(s0.kept_by(store@));
        }
        let mut tables = Self::generate_tables(module, store);
        assert(s0.kept_by(store@));
        let mut globals = Self::generate_globals(module, imports, store);
        let ghost s3 = store@;
        proof {
            lemma_data_frame(s3, module, imports, memories@, module.data_initializers@.len());
        }
        let vm_memories = Self::finalize_memories(module, imports, &mut memories, store);
        let ghost s4 = store@;
        proof {
            lemma_elems_frame(s4, module, imports, tables@, vmctx, module.elem_initializers@.len());
        }
        let vm_tables = Self::finalize_tables(module, imports, &mut tables, store, vmctx);
        let vm_globals = Self::finalize_globals(&mut globals);
        assert(s0.kept_by(store@));
        LocalBacking { memories, tables, globals, vm_memories, vm_tables, vm_globals }
    }

    /// Makes the memories that `module` defines, each of its minimum size
    /// and zero, in the order of the module.
    pub fn generate_memories(module: &ModuleInner, store: &mut Store) -> (memories: Vec<Memory>)
        requires
            old(store).wf(),
            old(store)@.memories_creatable(module.memories@),
        ensures
            final(store).wf(),
            final(store)@ == old(store)@.create_memories(module.memories@),
            memories@ == new_memories(old(store)@.memories.len(), module.memories@),
    {
        let mut memories: Vec<Memory> = Vec::with_capacity(module.memories.len());
        let mut i: usize = 0;
        while i < module.memories.len()
            invariant
                i <= module.memories.len(),
                store.wf(),
                old(store)@.memories_creatable(module.memories@),
                store@ == old(store)@.create_memories(module.memories@.subrange(0, i as int)),
                memories@ == new_memories(
                    old(store)@.memories.len(),
                    module.memories@.subrange(0, i as int),
                ),
            decreases module.memories.len() - i,
        {
            let desc = module.memories[i];
            proof {
                lemma_creatable_prefix(old(store)@, module.memories@, i + 1);
                assert(module.memories@.subrange(0, i + 1).drop_last() =~= module.memories@.subrange(
                    0,
                    i as int,
                ));
                lemma_create_memories(old(store)@, module.memories@.subrange(0, i as int));
            }
            match Memory::new(store, desc) {
                Ok(memory) => {
                    memories.push(memory);
                },
                Err(_) => unreached(),
            }
            i = i + 1;
        }
        assert(module.memories@.subrange(0, i as int) =~= module.memories@);
        memories
    }

    /// Applies the data initializers of `module` in the order of the
    /// module, and gives the places where generated code finds the records
    /// of `memories`.
    pub fn finalize_memories(
        module: &ModuleInner,
        imports: &ImportBacking,
        memories: &mut Vec<Memory>,
        store: &mut Store,
    ) -> (places: Vec<vm::LocalMemoryRef>)
        requires
            old(store).wf(),
            imports.wf(),
            imports.valid_in(old(store)@),
            memories_valid(old(memories)@, old(store)@),
            all_data_applicable(
                old(store)@,
                module,
                imports,
                old(memories)@,
                module.data_initializers@.len(),
            ),
        ensures
            final(store).wf(),
            final(memories)@ == old(memories)@,
            final(store)@ == all_data_initialized(
                old(store)@,
                module,
                imports,
                old(memories)@,
                module.data_initializers@.len(),
            ),
            old(store)@.kept_by(final(store)@),
            places@ == memory_refs(old(memories)@),
    {
        let mut n: usize = 0;
        while n < module.data_initializers.len()
            invariant
                n <= module.data_initializers.len(),
                store.wf(),
                imports.wf(),
                memories@ == old(memories)@,
                imports.valid_in(store@),
                memories_valid(memories@, store@),
                old(store)@.kept_by(store@),
                all_data_applicable(
                    old(store)@,
                    module,
                    imports,
                    memories@,
                    module.data_initializers@.len(),
                ),
                store@ == all_data_initialized(old(store)@, module, imports, memories@, n as nat),
            decreases module.data_initializers.len() - n,
        {
            let init = &module.data_initializers[n];
            proof {
                lemma_data_applicable_prefix(
                    old(store)@,
                    module,
                    imports,
                    memories@,
                    module.data_initializers@.len(),
                    (n + 1) as nat,
                );
            }
            Self::apply_data_initializer(module, imports, memories, store, init);
            n = n + 1;
        }
        let mut places: Vec<vm::LocalMemoryRef> = Vec::with_capacity(memories.len());
        let mut i: usize = 0;
        while i < memories.len()
            invariant
                i <= memories.len(),
                memories@ == old(memories)@,
                places@ == memory_refs(memories@.subrange(0, i as int)),
            decreases memories.len() - i,
        {
            let mut mem = memories[i];
            places.push(mem.vm_local_memory());
            i = i + 1;
        }
        places
    }

    /// Applies one data initializer: where it has bytes, they are written to
    /// the memory that it names, from its offset on. Nothing else in the
    /// store changes.
    pub fn apply_data_initializer(
        module: &ModuleInner,
        imports: &ImportBacking,
        memories: &Vec<Memory>,
        store: &mut Store,
        init: &DataInitializer,
    )
        requires
            old(store).wf(),
            imports.wf(),
            imports.valid_in(old(store)@),
            memories_valid(memories@, old(store)@),
            data_applicable(old(store)@, module, imports, memories@, init),
        ensures
            final(store).wf(),
            final(store)@ == data_initialized(old(store)@, module, imports, memories@, init),
            old(store)@.kept_by(final(store)@),
    {
        if init.data.len() == 0 {
            return ;
        }
        let init_base = match eval_initializer(&init.base, imports, store) {
            Some(base) => base,
            None => unreached(),
        };
        match local_or_import(init.memory_index.0, module.imported_memories.len()) {
            LocalOrImport::Local(local_memory_index) => {
                let mem = &memories[local_memory_index as usize];
                proof {
                    lemma_encode_many_bytes(init.data@);
                }
                mem.write_many(store, init_base as u32, init.data.as_slice()).unwrap();
            },
            LocalOrImport::Import(imported_memory_index) => {
                let place = imports.vm_memories[imported_memory_index as usize];
                write_through_record(store, place, init_base, init.data.as_slice());
            },
        }
    }

    /// Makes the tables that `module` defines, each of its minimum size and
    /// empty, in the order of the module.
    pub fn generate_tables(module: &ModuleInner, store: &mut Store) -> (tables: Vec<Table>)
        requires
            old(store).wf(),
        ensures
            final(store).wf(),
            final(store)@ == old(store)@.create_tables(module.tables@),
            tables@ == new_tables(old(store)@.tables.len(), module.tables@),
    {
        let mut tables: Vec<Table> = Vec::with_capacity(module.tables.len());
        let mut i: usize = 0;
        while i < module.tables.len()
            invariant
                i <= module.tables.len(),
                store.wf(),
                store@ == old(store)@.create_tables(module.tables@.subrange(0, i as int)),
                tables@ == new_tables(
                    old(store)@.tables.len(),
                    module.tables@.subrange(0, i as int),
                ),
            decreases module.tables.len() - i,
        {
            let table_desc = module.tables[i];
            match Table::new(store, table_desc) {
                Ok(table) => {
                    tables.push(table);
                },
                Err(_) => unreached(),
            }
            proof {
                assert(store@.tables =~= old(store)@.create_tables(
                    module.tables@.subrange(0, i + 1),
                ).tables);
            }
            i = i + 1;
        }
        assert(module.tables@.subrange(0, i as int) =~= module.tables@);
        tables
    }

    /// Applies the element initializers of `module` in the order of the
    /// module, and gives the places where generated code finds the records
    /// of `tables`.
    pub fn finalize_tables(
        module: &ModuleInner,
        imports: &ImportBacking,
        tables: &mut Vec<Table>,
        store: &mut Store,
        vmctx: vm::Ctx,
    ) -> (places: Vec<vm::LocalTableRef>)
        requires
            old(store).wf(),
            imports.valid_in(old(store)@),
            tables_valid(old(tables)@, old(store)@),
            all_elems_applicable(
                old(store)@,
                module,
                imports,
                old(tables)@,
                vmctx,
                module.elem_initializers@.len(),
            ),
        ensures
            final(store).wf(),
            final(tables)@ == old(tables)@,
            final(store)@ == all_elems_initialized(
                old(store)@,
                module,
                imports,
                old(tables)@,
                vmctx,
                module.elem_initializers@.len(),
            ),
            old(store)@.kept_by(final(store)@),
            places@ == table_refs(old(tables)@),
    {
        let mut n: usize = 0;
        while n < module.elem_initializers.len()
            invariant
                n <= module.elem_initializers.len(),
                store.wf(),
                tables@ == old(tables)@,
                imports.valid_in(store@),
                tables_valid(tables@, store@),
                old(store)@.kept_by(store@),
                all_elems_applicable(
                    old(store)@,
                    module,
                    imports,
                    tables@,
                    vmctx,
                    module.elem_initializers@.len(),
                ),
                store@ == all_elems_initialized(
                    old(store)@,
                    module,
                    imports,
                    tables@,
                    vmctx,
                    n as nat,
                ),
            decreases module.elem_initializers.len() - n,
        {
            let init = &module.elem_initializers[n];
            proof {
                lemma_elems_applicable_prefix(
                    old(store)@,
                    module,
                    imports,
                    tables@,
                    vmctx,
                    module.elem_initializers@.len(),
                    (n + 1) as nat,
                );
            }
            Self::apply_elem_initializer(module, imports, tables, store, vmctx, init);
            n = n + 1;
        }
        let mut places: Vec<vm::LocalTableRef> = Vec::with_capacity(tables.len());
        let mut i: usize = 0;
        while i < tables.len()
            invariant
                i <= tables.len(),
                tables@ == old(tables)@,
                places@ == table_refs(tables@.subrange(0, i as int)),
            decreases tables.len() - i,
        {
            let mut table = tables[i];
            places.push(table.vm_local_table());
            i = i + 1;
        }
        places
    }

    /// Applies one element initializer: the table that it names is grown,
    /// if it must be, to reach the last slot, and the entries for its
    /// functions are written from its offset on. Nothing else in the store
    /// changes.
    pub fn apply_elem_initializer(
        module: &ModuleInner,
        imports: &ImportBacking,
        tables: &Vec<Table>,
        store: &mut Store,
        vmctx: vm::Ctx,
        init: &TableInitializer,
    )
        requires
            old(store).wf(),
            imports.valid_in(old(store)@),
            tables_valid(tables@, old(store)@),
            elem_applicable(old(store)@, module, imports, tables@, init),
        ensures
            final(store).wf(),
            final(store)@ == elem_initialized(old(store)@, module, imports, tables@, vmctx, init),
            old(store)@.kept_by(final(store)@),
    {
        let init_base = match eval_initializer(&init.base, imports, store) {
            Some(base) => base,
            None => unreached(),
        };
        let table: Table = match local_or_import(init.table_index.0, module.imported_tables.len()) {
            LocalOrImport::Local(local_table_index) => tables[local_table_index as usize],
            LocalOrImport::Import(import_table_index) => imports.tables[import_table_index as usize],
        };
        let ghost entries = elem_entries(module, imports, vmctx, init.elements@);
        let size = table.size(store) as usize;
        let needed = init.elements.len() as u64 + init_base as u64;
        if (size as u64) < needed {
            let delta = (needed - size as u64) as u32;
            table.grow(store, delta).unwrap();
        }
        let ghost grown = store@.tables[table.addr as int].elements;
        let ghost widened = store@;
        let mut i: usize = 0;
        proof {
            assert(partly_written(grown, init_base as int, entries, 0) =~= grown);
            assert(widened.tables =~= widened.with_table(
                table.addr as int,
                TableView { desc: table.desc, elements: grown },
            ).tables);
        }
        while i < init.elements.len()
            invariant
                i <= init.elements.len(),
                store.wf(),
                table.valid_in(store@),
                table.addr < widened.tables.len(),
                init_base + init.elements.len() <= grown.len() <= u32::MAX,
                entries == elem_entries(module, imports, vmctx, init.elements@),
                forall|k: int|
                    0 <= k < init.elements.len() ==> elem_resolvable(
                        module,
                        imports,
                        #[trigger] init.elements[k],
                    ),
                store@ == widened.with_table(
                    table.addr as int,
                    TableView {
                        desc: table.desc,
                        elements: partly_written(grown, init_base as int, entries, i as int),
                    },
                ),
            decreases init.elements.len() - i,
        {
            let func_index = init.elements[i];
            let entry = anyfunc_for(module, imports, vmctx, func_index);
            table.set(store, (init_base + i) as u32, entry).unwrap();
            proof {
                let next = partly_written(grown, init_base as int, entries, i + 1);
                assert(store@.tables[table.addr as int].elements =~= next);
                assert(store@.tables =~= widened.with_table(
                    table.addr as int,
                    TableView { desc: table.desc, elements: next },
                ).tables);
            }
            i = i + 1;
        }
        proof {
            let target = elem_initialized(old(store)@, module, imports, tables@, vmctx, init);
            assert(store@.tables[table.addr as int].elements
                =~= target.tables[table.addr as int].elements);
            assert(store@.tables =~= target.tables);
        }
    }

    /// Makes the globals that `module` defines, in the order of the module.
    /// A global starts with its constant, or with the value that the named
    /// imported global holds now.
    pub fn generate_globals(
        module: &ModuleInner,
        imports: &ImportBacking,
        store: &mut Store,
    ) -> (globals: Vec<Global>)
        requires
            old(store).wf(),
            imports.valid_in(old(store)@),
            globals_resolvable(module.globals@, imports.globals@),
        ensures
            final(store).wf(),
            final(store)@ == old(store)@.create_globals(module.globals@, imports.globals@),
            globals@ == new_globals(old(store)@, module.globals@, imports.globals@),
    {
        let mut globals: Vec<Global> = Vec::with_capacity(module.globals.len());
        let mut i: usize = 0;
        while i < module.globals.len()
            invariant
                i <= module.globals.len(),
                store.wf(),
                imports.valid_in(old(store)@),
                globals_resolvable(module.globals@, imports.globals@),
                store@ == old(store)@.create_globals(
                    module.globals@.subrange(0, i as int),
                    imports.globals@,
                ),
                globals@ == new_globals(
                    old(store)@,
                    module.globals@.subrange(0, i as int),
                    imports.globals@,
                ),
            decreases module.globals.len() - i,
        {
            let global_init = &module.globals[i];
            let value = match global_init.init {
                Initializer::Const(value) => value,
                Initializer::GetGlobal(import_global_index) => {
                    let imported = &imports.globals[import_global_index.0 as usize];
                    imported.get(store)
                },
            };
            let global = if global_init.desc.mutable {
                Global::new_mutable(store, value)
            } else {
                Global::new(store, value)
            };
            globals.push(global);
            proof {
                assert(store@.globals =~= old(store)@.create_globals(
                    module.globals@.subrange(0, i + 1),
                    imports.globals@,
                ).globals);
            }
            i = i + 1;
        }
        assert(module.globals@.subrange(0, i as int) =~= module.globals@);
        globals
    }

    /// Where generated code finds the storage of each of `globals`.
    pub fn finalize_globals(globals: &mut Vec<Global>) -> (places: Vec<vm::LocalGlobalRef>)
        ensures
            final(globals)@ == old(globals)@,
            places@ == global_refs(old(globals)@),
    {
        let mut places: Vec<vm::LocalGlobalRef> = Vec::with_capacity(globals.len());
        let mut i: usize = 0;
        while i < globals.len()
            invariant
                i <= globals.len(),
                globals@ == old(globals)@,
                places@ == global_refs(globals@.subrange(0, i as int)),
            decreases globals.len() - i,
        {
            let mut global = globals[i];
            places.push(global.vm_local_global());
            i = i + 1;
        }
        places
    }
}

/// Computes [`initializer_base`].
pub(crate) fn eval_initializer(
    init: &Initializer,
    imports: &ImportBacking,
    store: &Store,
) -> (base: Option<usize>)
    requires
        imports.valid_in(store@),
    ensures
        base == initializer_base(store@, *init, imports.globals@),
        base matches Some(offset) ==> offset <= u32::MAX,
{
    proof {
        crate::le::lemma_pow256_values();
    }
    let offset: i32 = match init {
        Initializer::Const(Value::I32(offset)) => *offset,
        Initializer::Const(_) => {
            return None;
        },
        Initializer::GetGlobal(import_global_index) => {
            if import_global_index.0 as usize >= imports.globals.len() {
                return None;
            }
            let imported = &imports.globals[import_global_index.0 as usize];
            match imported.get(store) {
                Value::I32(x) => x,
                _ => {
                    return None;
                },
            }
        },
    };
    if offset >= 0 {
        Some(offset as usize)
    } else {
        Some((offset as i64 + 0x1_0000_0000) as usize)
    }
}

/// Writes `data` into the bytes that the record at `place` gives access
/// to, from byte `offset` on.
fn write_through_record(store: &mut Store, place: vm::LocalMemoryRef, offset: usize, data: &[u8])
    requires
        old(store).wf(),
        place.0 < old(store)@.memories.len(),
        offset + data@.len() <= old(store)@.memories[place.0 as int].bytes.len(),
    ensures
        final(store).wf(),
        final(store)@ == old(store)@.write_memory(place.0 as int, offset as int, data@),
{
    let cell = &mut store.memories[place.0];
    let memory_slice = cell.storage.as_slice_mut();
    write_bytes(memory_slice, offset, data);
    proof {
        assert(store@.memories =~= old(store)@.write_memory(
            place.0 as int,
            offset as int,
            data@,
        ).memories);
    }
}

/// Computes [`elem_entry`].
fn anyfunc_for(
    module: &ModuleInner,
    imports: &ImportBacking,
    vmctx: vm::Ctx,
    func_index: FuncIndex,
) -> (entry: vm::Anyfunc)
    requires
        elem_resolvable(module, imports, func_index),
    ensures
        entry == elem_entry(module, imports, vmctx, func_index),
{
    let sig_index = module.func_assoc[func_index.0 as usize];
    let sig_id = vm::SigId(sig_index.0);
    let (func, ctx) = match local_or_import(func_index.0, module.imported_functions.len()) {
        LocalOrImport::Local(local_func_index) => {
            match module.func_resolver.get(LocalFuncIndex(local_func_index)) {
                Some(code) => (code, vmctx),
                None => unreached(),
            }
        },
        LocalOrImport::Import(imported_func_index) => {
            let imported = imports.vm_functions[imported_func_index as usize];
            (imported.func, imported.vmctx)
        },
    };
    vm::Anyfunc { func, ctx, sig_id }
}

/// What an instance imports: handles to the imported memories, tables and
/// globals, and what generated code needs to reach them and the imported
/// functions. Each list is indexed by the imported index of its kind.
#[derive(Debug)]
pub struct ImportBacking {
    pub memories: Vec<Memory>,
    pub tables: Vec<Table>,
    pub globals: Vec<Global>,
    pub vm_functions: Vec<vm::ImportedFunc>,
    pub vm_memories: Vec<vm::LocalMemoryRef>,
    pub vm_tables: Vec<vm::LocalTableRef>,
    pub vm_globals: Vec<vm::LocalGlobalRef>,
}

impl ImportBacking {
    /// The records for generated code name the same items as the handles.
    pub open spec fn wf(&self) -> bool {
        &&& self.vm_memories@ == memory_refs(self.memories@)
        &&& self.vm_tables@ == table_refs(self.tables@)
        &&& self.vm_globals@ == global_refs(self.globals@)
    }

    /// Every imported handle names an item of `store`.
    pub open spec fn valid_in(&self, store: StoreView) -> bool {
        &&& memories_valid(self.memories@, store)
        &&& tables_valid(self.tables@, store)
        &&& globals_valid(self.globals@, store)
    }

    /// Handles stay valid in a store that keeps what the older one held.
    pub proof fn lemma_still_valid(&self, older: StoreView, newer: StoreView)
        requires
            self.valid_in(older),
            older.kept_by(newer),
        ensures
            self.valid_in(newer),
    {
    }

    /// Tells whether every imported handle names an item of `store`, and
    /// the records for generated code name the same items as the handles.
    pub fn is_valid_in(&self, store: &Store) -> (valid: bool)
        ensures
            valid == (self.wf() && self.valid_in(store@)),
    {
        if self.vm_memories.len() != self.memories.len() || self.vm_tables.len()
            != self.tables.len() || self.vm_globals.len() != self.globals.len() {
            return false;
        }
        let mut i: usize = 0;
        while i < self.memories.len()
            invariant
                i <= self.memories.len(),
                self.vm_memories.len() == self.memories.len(),
                forall|j: int|
                    0 <= j < i ==> (#[trigger] self.memories@[j]).valid_in(store@)
                        && self.vm_memories@[j] == memory_refs(self.memories@)[j],
            decreases self.memories.len() - i,
        {
            if !self.memories[i].is_valid_in(store) || self.vm_memories[i].0
                != self.memories[i].addr {
                return false;
            }
            i = i + 1;
        }
        assert(self.vm_memories@ =~= memory_refs(self.memories@));
        let mut i: usize = 0;
        while i < self.tables.len()
            invariant
                i <= self.tables.len(),
                self.vm_tables.len() == self.tables.len(),
                forall|j: int|
                    0 <= j < i ==> (#[trigger] self.tables@[j]).valid_in(store@)
                        && self.vm_tables@[j] == table_refs(self.tables@)[j],
            decreases self.tables.len() - i,
        {
            if !self.tables[i].is_valid_in(store) || self.vm_tables[i].0 != self.tables[i].addr {
                return false;
            }
            i = i + 1;
        }
        assert(self.vm_tables@ =~= table_refs(self.tables@));
        let mut i: usize = 0;
        while i < self.globals.len()
            invariant
                i <= self.globals.len(),
                self.vm_globals.len() == self.globals.len(),
                forall|j: int|
                    0 <= j < i ==> (#[trigger] self.globals@[j]).valid_in(store@)
                        && self.vm_globals@[j] == global_refs(self.globals@)[j],
            decreases self.globals.len() - i,
        {
            if !self.globals[i].is_valid_in(store) || self.vm_globals[i].0
                != self.globals[i].addr {
                return false;
            }
            i = i + 1;
        }
        assert(self.vm_globals@ =~= global_refs(self.globals@));
        true
    }

    /// Links every import of `module` against `imports`: the functions, then
    /// the memories, the tables and the globals. All of them are looked at,
    /// whatever errors were found before. The result is the backing with
    /// every import in it, or else every error that was found; `imports` is
    /// left as it was.
    pub fn new(
        module: &ModuleInner,
        imports: &mut ImportObject,
        vmctx: vm::Ctx,
    ) -> (linked: LinkResult<ImportBacking>)
        requires
            module.imports_have_signatures(),
        ensures
            *final(imports) == *old(imports),
            linked.is_ok() == (link_errors(module, old(imports), vmctx).len() == 0),
            linked matches Err(errors) ==> error_views(errors@) == link_errors(
                module,
                old(imports),
                vmctx,
            ),
            linked matches Ok(backing) ==> {
                &&& backing.wf()
                &&& backing.vm_functions@ == accepted(function_imports(module, old(imports), vmctx))
                &&& backing.memories@ == accepted(memory_imports(module, old(imports)))
                &&& backing.tables@ == accepted(table_imports(module, old(imports)))
                &&& backing.globals@ == accepted(global_imports(module, old(imports)))
            },
    {
        let mut failed = false;
        let mut link_errors: Vec<LinkError> = Vec::new();
        let supplied: &ImportObject = &*imports;

        let vm_functions = match import_functions(module, supplied, vmctx) {
            Ok(functions) => functions,
            Err(mut le) => {
                failed = true;
                link_errors.append(&mut le);
                Vec::new()
            },
        };

        let (memories, vm_memories) = match import_memories(module, supplied) {
            Ok(pair) => pair,
            Err(mut le) => {
                failed = true;
                link_errors.append(&mut le);
                (Vec::new(), Vec::new())
            },
        };

        let (tables, vm_tables) = match import_tables(module, supplied) {
            Ok(pair) => pair,
            Err(mut le) => {
                failed = true;
                link_errors.append(&mut le);
                (Vec::new(), Vec::new())
            },
        };

        let (globals, vm_globals) = match import_globals(module, supplied) {
            Ok(pair) => pair,
            Err(mut le) => {
                failed = true;
                link_errors.append(&mut le);
                (Vec::new(), Vec::new())
            },
        };

        if failed {
            Err(link_errors)
        } else {
            Ok(
                ImportBacking {
                    memories,
                    tables,
                    globals,
                    vm_functions,
                    vm_memories,
                    vm_tables,
                    vm_globals,
                },
            )
        }
    }

    /// What generated code needs to call the imported function `index`.
    pub fn imported_func(&self, index: ImportedFuncIndex) -> (func: vm::ImportedFunc)
        requires
            index.0 < self.vm_functions.len(),
        ensures
            func == self.vm_functions[index.0 as int],
    {
        self.vm_functions[index.0 as usize]
    }
}

/// Links the imported functions of `module`. Every import is looked at,
/// also after an error was found: the result is the accepted functions in
/// order, or else every error in order.
pub fn import_functions(
    module: &ModuleInner,
    imports: &ImportObject,
    vmctx: vm::Ctx,
) -> (linked: LinkResult<Vec<vm::ImportedFunc>>)
    requires
        module.imports_have_signatures(),
    ensures
        linked.is_ok() == (rejected(function_imports(module, imports, vmctx)).len() == 0),
        linked matches Ok(functions) ==> functions@ == accepted(
            function_imports(module, imports, vmctx),
        ),
        linked matches Err(errors) ==> error_views(errors@) == rejected(
            function_imports(module, imports, vmctx),
        ),
{
    let mut link_errors: Vec<LinkError> = Vec::new();
    let mut functions: Vec<vm::ImportedFunc> = Vec::with_capacity(module.imported_functions.len());
    let ghost outcomes = function_imports(module, imports, vmctx);
    let mut index: usize = 0;
    while index < module.imported_functions.len()
        invariant
            index <= module.imported_functions.len(),
            module.imports_have_signatures(),
            outcomes == function_imports(module, imports, vmctx),
            functions@ == accepted(outcomes.subrange(0, index as int)),
            error_views(link_errors@) == rejected(outcomes.subrange(0, index as int)),
        decreases module.imported_functions.len() - index,
    {
        let import_name = &module.imported_functions[index];
        assert(module.has_signature(index as int));
        let sig_index = module.func_assoc[index];
        let expected_sig = module.sig_registry.lookup_signature(sig_index);
        let import = imports.get_export(&import_name.namespace, &import_name.name);
        proof {
            lemma_next_outcome(outcomes, index as int);
        }
        match import {
            Some(Export::Function { func, ctx, signature }) => {
                if expected_sig.same_as(signature) {
                    functions.push(
                        vm::ImportedFunc {
                            func: func.inner(),
                            vmctx: match ctx {
                                Context::External(ctx) => *ctx,
                                Context::Internal => vmctx,
                            },
                        },
                    );
                } else {
                    link_errors.push(
                        LinkError::IncorrectImportSignature {
                            namespace: import_name.namespace.clone(),
                            name: import_name.name.clone(),
                            expected: expected_sig.duplicate(),
                            found: signature.duplicate(),
                        },
                    );
                }
            },
            Some(export_type) => {
                link_errors.push(
                    LinkError::IncorrectImportType {
                        namespace: import_name.namespace.clone(),
                        name: import_name.name.clone(),
                        expected: "function".to_string(),
                        found: export_type.kind_name(),
                    },
                );
            },
            None => {
                link_errors.push(
                    LinkError::ImportNotFound {
                        namespace: import_name.namespace.clone(),
                        name: import_name.name.clone(),
                    },
                );
            },
        }
        index = index + 1;
    }
    assert(outcomes.subrange(0, outcomes.len() as int) =~= outcomes);
    if link_errors.len() > 0 {
        Err(link_errors)
    } else {
        Ok(functions)
    }
}

/// Links the imported memories of `module`. Every import is looked at, also
/// after an error was found: the result is the accepted memories in order,
/// with the places of their records, or else every error in order.
pub fn import_memories(module: &ModuleInner, imports: &ImportObject) -> (linked: LinkResult<
    (Vec<Memory>, Vec<vm::LocalMemoryRef>),
>)
    ensures
        linked.is_ok() == (rejected(memory_imports(module, imports)).len() == 0),
        linked matches Ok(pair) ==> pair.0@ == accepted(memory_imports(module, imports))
            && pair.1@ == memory_refs(pair.0@),
        linked matches Err(errors) ==> error_views(errors@) == rejected(
            memory_imports(module, imports),
        ),
{
    let mut link_errors: Vec<LinkError> = Vec::new();
    let mut memories: Vec<Memory> = Vec::with_capacity(module.imported_memories.len());
    let mut vm_memories: Vec<vm::LocalMemoryRef> = Vec::with_capacity(
        module.imported_memories.len(),
    );
    let ghost outcomes = memory_imports(module, imports);
    let mut index: usize = 0;
    while index < module.imported_memories.len()
        invariant
            index <= module.imported_memories.len(),
            outcomes == memory_imports(module, imports),
            memories@ == accepted(outcomes.subrange(0, index as int)),
            vm_memories@ == memory_refs(memories@),
            error_views(link_errors@) == rejected(outcomes.subrange(0, index as int)),
        decreases module.imported_memories.len() - index,
    {
        let import_name = &module.imported_memories[index].0;
        let expected_memory_desc = &module.imported_memories[index].1;
        let memory_import = imports.get_export(&import_name.namespace, &import_name.name);
        proof {
            lemma_next_outcome(outcomes, index as int);
        }
        match memory_import {
            Some(Export::Memory(memory)) => {
                let mut memory = *memory;
                if expected_memory_desc.fits_in_imported(memory.descriptor()) {
                    memories.push(memory);
                    vm_memories.push(memory.vm_local_memory());
                } else {
                    link_errors.push(
                        LinkError::IncorrectMemoryDescriptor {
                            namespace: import_name.namespace.clone(),
                            name: import_name.name.clone(),
                            expected: *expected_memory_desc,
                            found: memory.descriptor(),
                        },
                    );
                }
            },
            Some(export_type) => {
                link_errors.push(
                    LinkError::IncorrectImportType {
                        namespace: import_name.namespace.clone(),
                        name: import_name.name.clone(),
                        expected: "memory".to_string(),
                        found: export_type.kind_name(),
                    },
                );
            },
            None => {
                link_errors.push(
                    LinkError::ImportNotFound {
                        namespace: import_name.namespace.clone(),
                        name: import_name.name.clone(),
                    },
                );
            },
        }
        index = index + 1;
    }
    assert(outcomes.subrange(0, outcomes.len() as int) =~= outcomes);
    if link_errors.len() > 0 {
        Err(link_errors)
    } else {
        Ok((memories, vm_memories))
    }
}

/// Links the imported tables of `module`. Every import is looked at, also
/// after an error was found: the result is the accepted tables in order,
/// with the places of their records, or else every error in order.
pub fn import_tables(module: &ModuleInner, imports: &ImportObject) -> (linked: LinkResult<
    (Vec<Table>, Vec<vm::LocalTableRef>),
>)
    ensures
        linked.is_ok() == (rejected(table_imports(module, imports)).len() == 0),
        linked matches Ok(pair) ==> pair.0@ == accepted(table_imports(module, imports))
            && pair.1@ == table_refs(pair.0@),
        linked matches Err(errors) ==> error_views(errors@) == rejected(
            table_imports(module, imports),
        ),
{
    let mut link_errors: Vec<LinkError> = Vec::new();
    let mut tables: Vec<Table> = Vec::with_capacity(module.imported_tables.len());
    let mut vm_tables: Vec<vm::LocalTableRef> = Vec::with_capacity(module.imported_tables.len());
    let ghost outcomes = table_imports(module, imports);
    let mut index: usize = 0;
    while index < module.imported_tables.len()
        invariant
            index <= module.imported_tables.len(),
            outcomes == table_imports(module, imports),
            tables@ == accepted(outcomes.subrange(0, index as int)),
            vm_tables@ == table_refs(tables@),
            error_views(link_errors@) == rejected(outcomes.subrange(0, index as int)),
        decreases module.imported_tables.len() - index,
    {
        let import_name = &module.imported_tables[index].0;
        let expected_table_desc = &module.imported_tables[index].1;
        let table_import = imports.get_export(&import_name.namespace, &import_name.name);
        proof {
            lemma_next_outcome(outcomes, index as int);
        }
        match table_import {
            Some(Export::Table(table)) => {
                let mut table = *table;
                if expected_table_desc.fits_in_imported(table.descriptor()) {
                    vm_tables.push(table.vm_local_table());
                    tables.push(table);
                } else {
                    link_errors.push(
                        LinkError::IncorrectTableDescriptor {
                            namespace: import_name.namespace.clone(),
                            name: import_name.name.clone(),
                            expected: *expected_table_desc,
                            found: table.descriptor(),
                        },
                    );
                }
            },
            Some(export_type) => {
                link_errors.push(
                    LinkError::IncorrectImportType {
                        namespace: import_name.namespace.clone(),
                        name: import_name.name.clone(),
                        expected: "table".to_string(),
                        found: export_type.kind_name(),
                    },
                );
            },
            None => {
                link_errors.push(
                    LinkError::ImportNotFound {
                        namespace: import_name.namespace.clone(),
                        name: import_name.name.clone(),
                    },
                );
            },
        }
        index = index + 1;
    }
    assert(outcomes.subrange(0, outcomes.len() as int) =~= outcomes);
    if link_errors.len() > 0 {
        Err(link_errors)
    } else {
        Ok((tables, vm_tables))
    }
}

/// Links the imported globals of `module`. Every import is looked at, also
/// after an error was found: the result is the accepted globals in order,
/// with the places of their storage, or else every error in order.
pub fn import_globals(module: &ModuleInner, imports: &ImportObject) -> (linked: LinkResult<
    (Vec<Global>, Vec<vm::LocalGlobalRef>),
>)
    ensures
        linked.is_ok() == (rejected(global_imports(module, imports)).len() == 0),
        linked matches Ok(pair) ==> pair.0@ == accepted(global_imports(module, imports))
            && pair.1@ == global_refs(pair.0@),
        linked matches Err(errors) ==> error_views(errors@) == rejected(
            global_imports(module, imports),
        ),
{
    let mut link_errors: Vec<LinkError> = Vec::new();
    let mut globals: Vec<Global> = Vec::with_capacity(module.imported_globals.len());
    let mut vm_globals: Vec<vm::LocalGlobalRef> = Vec::with_capacity(
        module.imported_globals.len(),
    );
    let ghost outcomes = global_imports(module, imports);
    let mut index: usize = 0;
    while index < module.imported_globals.len()
        invariant
            index <= module.imported_globals.len(),
            outcomes == global_imports(module, imports),
            globals@ == accepted(outcomes.subrange(0, index as int)),
            vm_globals@ == global_refs(globals@),
            error_views(link_errors@) == rejected(outcomes.subrange(0, index as int)),
        decreases module.imported_globals.len() - index,
    {
        let import_name = &module.imported_globals[index].0;
        let imported_global_desc = &module.imported_globals[index].1;
        let import = imports.get_export(&import_name.namespace, &import_name.name);
        proof {
            lemma_next_outcome(outcomes, index as int);
        }
        match import {
            Some(Export::Global(global)) => {
                let mut global = *global;
                if global.descriptor() == *imported_global_desc {
                    vm_globals.push(global.vm_local_global());
                    globals.push(global);
                } else {
                    link_errors.push(
                        LinkError::IncorrectGlobalDescriptor {
                            namespace: import_name.namespace.clone(),
                            name: import_name.name.clone(),
                            expected: *imported_global_desc,
                            found: global.descriptor(),
                        },
                    );
                }
            },
            Some(export_type) => {
                link_errors.push(
                    LinkError::IncorrectImportType {
                        namespace: import_name.namespace.clone(),
                        name: import_name.name.clone(),
                        expected: "global".to_string(),
                        found: export_type.kind_name(),
                    },
                );
            },
            None => {
                link_errors.push(
                    LinkError::ImportNotFound {
                        namespace: import_name.namespace.clone(),
                        name: import_name.name.clone(),
                    },
                );
            },
        }
        index = index + 1;
    }
    assert(outcomes.subrange(0, outcomes.len() as int) =~= outcomes);
    if link_errors.len() > 0 {
        Err(link_errors)
    } else {
        Ok((globals, vm_globals))
    }
}

} // verus!
