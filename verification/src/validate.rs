//! Telling at run time, before anything is changed, whether a module can be
//! instantiated in a store.

use vstd::prelude::*;
use crate::backing::{eval_initializer, ImportBacking, LocalBacking};
use crate::instantiate::{
    all_data_applicable, all_data_initialized, all_elems_applicable, all_elems_initialized,
    data_applicable, elem_applicable, elem_entries, elem_resolvable, globals_resolvable,
    initializer_base, lemma_creatable_prefix, lemma_data_applicable_prefix, lemma_data_frame,
    lemma_elems_applicable_prefix, lemma_elems_frame, lemma_generate, lemma_init_table,
    memories_valid, new_memories, new_tables, tables_valid,
};
use crate::memory::dynamic::DYNAMIC_GUARD_SIZE;
use crate::memory::static_::{SAFE_STATIC_GUARD_SIZE, SAFE_STATIC_HEAP_SIZE};
use crate::memory::{creatable, reserved_size, MemoryType};
use crate::module::{DataInitializer, ModuleInner, TableInitializer};
use crate::store::{Store, StoreView};
use crate::types::{
    local_or_import, split_index, FuncIndex, Initializer, LocalFuncIndex, LocalOrImport,
    MemoryDescriptor,
};
use crate::vm;

verus! {

/// Whether a memory that is not shared can be made from `desc` when `next`
/// is the lowest free address, and the lowest free address after that.
fn creatable_at(desc: MemoryDescriptor, next: u64) -> (after: Option<u64>)
    ensures
        after.is_some() == (!desc.shared && creatable(desc, next)),
        after matches Some(free) ==> free == next + reserved_size(desc),
{
    if desc.shared || !desc.minimum.is_addressable() {
        return None;
    }
    let min_bytes = desc.minimum.bytes().0 as u64;
    let reserved: u64 = match desc.memory_type() {
        MemoryType::Dynamic => {
            assert((min_bytes + 4096 + 4095) / 4096 * 4096 == min_bytes + 4096) by {
            }
            min_bytes + DYNAMIC_GUARD_SIZE as u64
        },
        _ => {
            if min_bytes > SAFE_STATIC_HEAP_SIZE {
                return None;
            }
            SAFE_STATIC_HEAP_SIZE + SAFE_STATIC_GUARD_SIZE
        },
    };
    if reserved > u64::MAX - next {
        None
    } else {
        Some(next + reserved)
    }
}

/// Tells whether the memories of `descs` can be made in `store`, one after
/// the other.
fn check_memories_creatable(store: &Store, descs: &Vec<MemoryDescriptor>) -> (ok: bool)
    ensures
        ok == store@.memories_creatable(descs@),
{
    let mut next: u64 = store.space.next;
    let mut i: usize = 0;
    while i < descs.len()
        invariant
            i <= descs.len(),
            store@.memories_creatable(descs@.subrange(0, i as int)),
            next == store@.create_memories(descs@.subrange(0, i as int)).next,
        decreases descs.len() - i,
    {
        proof {
            assert(descs@.subrange(0, i + 1).drop_last() =~= descs@.subrange(0, i as int));
        }
        match creatable_at(descs[i], next) {
            Some(free) => {
                next = free;
            },
            None => {
                proof {
                    if store@.memories_creatable(descs@) {
                        lemma_creatable_prefix(store@, descs@, i + 1);
                    }
                }
                return false;
            },
        }
        i = i + 1;
    }
    assert(descs@.subrange(0, i as int) =~= descs@);
    true
}

/// Tells whether each global of `module` that starts with the value of an
/// imported global names one that was imported.
fn check_globals_resolvable(module: &ModuleInner, imports: &ImportBacking) -> (ok: bool)
    ensures
        ok == globals_resolvable(module.globals@, imports.globals@),
{
    let mut i: usize = 0;
    while i < module.globals.len()
        invariant
            i <= module.globals.len(),
            forall|j: int|
                0 <= j < i ==> ((#[trigger] module.globals@[j]).init matches Initializer::GetGlobal(
                    index,
                ) ==> index.0 < imports.globals@.len()),
        decreases module.globals.len() - i,
    {
        match module.globals[i].init {
            Initializer::GetGlobal(index) => {
                if index.0 as usize >= imports.globals.len() {
                    return false;
                }
            },
            Initializer::Const(_) => {},
        }
        i = i + 1;
    }
    true
}

/// Whether `init` can be applied once the items of `module` are made in
/// `store`, said of the store as it is before.
pub open spec fn data_fits(
    store: StoreView,
    module: &ModuleInner,
    imports: &ImportBacking,
    init: &DataInitializer,
) -> bool {
    init.data.len() == 0 || {
        &&& initializer_base(store, init.base, imports.globals@) matches Some(base)
        &&& match split_index(init.memory_index.0, module.imported_memories.len() as nat) {
            LocalOrImport::Local(local) => local < module.memories.len() && base + init.data.len()
                <= module.memories[local as int].minimum.byte_count(),
            LocalOrImport::Import(imported) => imported < imports.memories.len() && base
                + init.data.len()
                <= store.memories[imports.memories[imported as int].addr as int].bytes.len(),
        }
    }
}

/// Computes [`data_fits`].
fn check_data_fits(
    module: &ModuleInner,
    imports: &ImportBacking,
    store: &Store,
    init: &DataInitializer,
) -> (ok: bool)
    requires
        store.wf(),
        imports.valid_in(store@),
    ensures
        ok == data_fits(store@, module, imports, init),
{
    if init.data.len() == 0 {
        return true;
    }
    let base = match eval_initializer(&init.base, imports, store) {
        Some(base) => base,
        None => {
            return false;
        },
    };
    let top: u128 = base as u128 + init.data.len() as u128;
    match local_or_import(init.memory_index.0, module.imported_memories.len()) {
        LocalOrImport::Local(local) => {
            (local as usize) < module.memories.len() && top
                <= module.memories[local as usize].minimum.0 as u128 * 65_536
        },
        LocalOrImport::Import(imported) => {
            if imported as usize >= imports.memories.len() {
                return false;
            }
            let memory = &imports.memories[imported as usize];
            top <= store.memories[memory.addr].storage.as_slice().len() as u128
        },
    }
}

/// The same offset is read from two stores that hold the same imported
/// globals.
proof fn lemma_same_base(
    older: StoreView,
    newer: StoreView,
    imports: &ImportBacking,
    init: Initializer,
)
    requires
        imports.valid_in(older),
        older.globals.len() <= newer.globals.len(),
        forall|i: int| 0 <= i < older.globals.len() ==> newer.globals[i] == older.globals[i],
    ensures
        initializer_base(newer, init, imports.globals@) == initializer_base(
            older,
            init,
            imports.globals@,
        ),
{
}

/// Tells whether the data initializers of `module` can be applied, one
/// after the other, once the items of the module are made in `store`.
fn check_data(module: &ModuleInner, imports: &ImportBacking, store: &Store) -> (ok: bool)
    requires
        store.wf(),
        imports.valid_in(store@),
        store@.memories.len() + module.memories@.len() <= usize::MAX,
    ensures
        ok == all_data_applicable(
            store@.generate(module, imports),
            module,
            imports,
            new_memories(store@.memories.len(), module.memories@),
            module.data_initializers@.len(),
        ),
{
    let ghost made = store@.generate(module, imports);
    let ghost locals = new_memories(store@.memories.len(), module.memories@);
    let mut n: usize = 0;
    proof {
        lemma_generate(store@, module, imports);
        imports.lemma_still_valid(store@, made);
        assert forall|i: int| 0 <= i < locals.len() implies (#[trigger] locals[i]).valid_in(made) by {
            assert(made.memories[store@.memories.len() + i].desc == module.memories[i]);
        }
    }
    while n < module.data_initializers.len()
        invariant
            n <= module.data_initializers.len(),
            store.wf(),
            imports.valid_in(store@),
            store@.memories.len() + module.memories@.len() <= usize::MAX,
            made == store@.generate(module, imports),
            locals == new_memories(store@.memories.len(), module.memories@),
            imports.valid_in(made),
            memories_valid(locals, made),
            all_data_applicable(made, module, imports, locals, n as nat),
        decreases module.data_initializers.len() - n,
    {
        let init = &module.data_initializers[n];
        let ok = check_data_fits(module, imports, store, init);
        proof {
            let before = all_data_initialized(made, module, imports, locals, n as nat);
            lemma_generate(store@, module, imports);
            lemma_data_frame(made, module, imports, locals, n as nat);
            lemma_same_base(store@, before, imports, init.base);
            match split_index(init.memory_index.0, module.imported_memories.len() as nat) {
                LocalOrImport::Local(local) => {
                    if local < module.memories.len() {
                        assert(locals[local as int].desc == module.memories[local as int]);
                    }
                },
                LocalOrImport::Import(imported) => {
                    if imported < imports.memories.len() {
                        let memory = imports.memories@[imported as int];
                        assert(memory.valid_in(store@));
                        assert(before.memories[memory.addr as int].bytes.len()
                            == made.memories[memory.addr as int].bytes.len());
                    }
                },
            }
            assert(ok == data_applicable(before, module, imports, locals, init));
            if !ok && all_data_applicable(
                made,
                module,
                imports,
                locals,
                module.data_initializers@.len(),
            ) {
                lemma_data_applicable_prefix(
                    made,
                    module,
                    imports,
                    locals,
                    module.data_initializers@.len(),
                    (n + 1) as nat,
                );
            }
        }
        if !ok {
            return false;
        }
        n = n + 1;
    }
    true
}

/// Computes [`elem_resolvable`].
fn check_resolvable(
    module: &ModuleInner,
    imports: &ImportBacking,
    func_index: FuncIndex,
) -> (ok: bool)
    ensures
        ok == elem_resolvable(module, imports, func_index),
{
    if func_index.0 as usize >= module.func_assoc.len() {
        return false;
    }
    match local_or_import(func_index.0, module.imported_functions.len()) {
        LocalOrImport::Local(local) => module.func_resolver.get(LocalFuncIndex(local)).is_some(),
        LocalOrImport::Import(imported) => (imported as usize) < imports.vm_functions.len(),
    }
}

/// Tells whether each function of `elements` can be resolved.
fn check_all_resolvable(
    module: &ModuleInner,
    imports: &ImportBacking,
    elements: &Vec<FuncIndex>,
) -> (ok: bool)
    ensures
        ok == (forall|i: int|
            0 <= i < elements@.len() ==> elem_resolvable(module, imports, #[trigger] elements@[i])),
{
    let mut i: usize = 0;
    while i < elements.len()
        invariant
            i <= elements.len(),
            forall|j: int| 0 <= j < i ==> elem_resolvable(module, imports, #[trigger] elements@[j]),
        decreases elements.len() - i,
    {
        if !check_resolvable(module, imports, elements[i]) {
            return false;
        }
        i = i + 1;
    }
    true
}

/// The place in the store and the maximum of the table that `init` names,
/// once the tables of `module` are made in a store that holds `first`
/// tables already.
pub open spec fn elem_target(
    first: nat,
    module: &ModuleInner,
    imports: &ImportBacking,
    init: &TableInitializer,
) -> Option<(usize, Option<u32>)> {
    match split_index(init.table_index.0, module.imported_tables.len() as nat) {
        LocalOrImport::Local(local) => if local < module.tables.len() {
            Some(((first + local) as usize, module.tables[local as int].maximum))
        } else {
            None
        },
        LocalOrImport::Import(imported) => if imported < imports.tables.len() {
            Some(
                (
                    imports.tables[imported as int].addr,
                    imports.tables[imported as int].desc.maximum,
                ),
            )
        } else {
            None
        },
    }
}

/// Tells whether the element initializers of `module` can be applied, one
/// after the other, once the items of the module are made in `store` and
/// its data initializers are applied.
fn check_elems(
    module: &ModuleInner,
    imports: &ImportBacking,
    store: &Store,
    vmctx: vm::Ctx,
) -> (ok: bool)
    requires
        store.wf(),
        imports.valid_in(store@),
        store@.memories.len() + module.memories@.len() <= usize::MAX,
        store@.tables.len() + module.tables@.len() <= usize::MAX,
        all_data_applicable(
            store@.generate(module, imports),
            module,
            imports,
            new_memories(store@.memories.len(), module.memories@),
            module.data_initializers@.len(),
        ),
    ensures
        ok == all_elems_applicable(
            all_data_initialized(
                store@.generate(module, imports),
                module,
                imports,
                new_memories(store@.memories.len(), module.memories@),
                module.data_initializers@.len(),
            ),
            module,
            imports,
            new_tables(store@.tables.len(), module.tables@),
            vmctx,
            module.elem_initializers@.len(),
        ),
{
    let ghost made = store@.generate(module, imports);
    let ghost written = all_data_initialized(
        made,
        module,
        imports,
        new_memories(store@.memories.len(), module.memories@),
        module.data_initializers@.len(),
    );
    let ghost locals = new_tables(store@.tables.len(), module.tables@);
    proof {
        lemma_generate(store@, module, imports);
        imports.lemma_still_valid(store@, made);
        let memories = new_memories(store@.memories.len(), module.memories@);
        assert forall|i: int| 0 <= i < memories.len() implies (#[trigger] memories[i]).valid_in(
            made,
        ) by {
            assert(made.memories[store@.memories.len() + i].desc == module.memories[i]);
        }
        lemma_data_frame(made, module, imports, memories, module.data_initializers@.len());
        imports.lemma_still_valid(made, written);
        assert forall|i: int| 0 <= i < locals.len() implies (#[trigger] locals[i]).valid_in(
            written,
        ) by {
            assert(made.tables[store@.tables.len() + i].desc == module.tables[i]);
        }
    }
    let mut sizes: Vec<usize> = Vec::new();
    let mut t: usize = 0;
    while t < store.tables.len()
        invariant
            t <= store.tables.len(),
            store.wf(),
            sizes@.len() == t,
            forall|a: int| 0 <= a < t ==> sizes@[a] == store@.tables[a].elements.len(),
        decreases store.tables.len() - t,
    {
        sizes.push(store.tables[t].storage.backing.len());
        t = t + 1;
    }
    let mut l: usize = 0;
    while l < module.tables.len()
        invariant
            l <= module.tables.len(),
            sizes@.len() == store@.tables.len() + l,
            forall|a: int|
                0 <= a < store@.tables.len() ==> sizes@[a] == store@.tables[a].elements.len(),
            forall|a: int| 0 <= a < l ==> sizes@[store@.tables.len() + a] == module.tables[a].minimum,
        decreases module.tables.len() - l,
    {
        sizes.push(module.tables[l].minimum as usize);
        l = l + 1;
    }
    assert forall|a: int| 0 <= a < written.tables.len() implies sizes@[a]
        == written.tables[a].elements.len() by {
        if a >= store@.tables.len() {
            assert(made.tables[store@.tables.len() + (a - store@.tables.len())].elements.len()
                == module.tables[a - store@.tables.len()].minimum);
        }
    }
    let mut n: usize = 0;
    while n < module.elem_initializers.len()
        invariant
            n <= module.elem_initializers.len(),
            store.wf(),
            imports.valid_in(store@),
            store@.tables.len() + module.tables@.len() <= usize::MAX,
            locals == new_tables(store@.tables.len(), module.tables@),
            written == all_data_initialized(
                store@.generate(module, imports),
                module,
                imports,
                new_memories(store@.memories.len(), module.memories@),
                module.data_initializers@.len(),
            ),
            imports.valid_in(written),
            tables_valid(locals, written),
            written.tables.len() == store@.tables.len() + module.tables.len(),
            store@.globals.len() <= written.globals.len(),
            forall|i: int| 0 <= i < store@.globals.len() ==> written.globals[i] == store@.globals[i],
            forall|i: int|
                0 <= i < module.tables.len() ==> (#[trigger] written.tables[store@.tables.len()
                    + i]).desc == module.tables[i],
            all_elems_applicable(written, module, imports, locals, vmctx, n as nat),
            sizes@.len() == written.tables.len(),
            forall|a: int|
                0 <= a < sizes@.len() ==> sizes@[a] == (#[trigger] all_elems_initialized(
                    written,
                    module,
                    imports,
                    locals,
                    vmctx,
                    n as nat,
                ).tables[a]).elements.len(),
        decreases module.elem_initializers.len() - n,
    {
        let init = &module.elem_initializers[n];
        let ghost before = all_elems_initialized(written, module, imports, locals, vmctx, n as nat);
        let ghost entries = elem_entries(module, imports, vmctx, init.elements@);
        proof {
            lemma_elems_frame(written, module, imports, locals, vmctx, n as nat);
            lemma_same_base(store@, before, imports, init.base);
        }
        let target: Option<(usize, Option<u32>)> = match local_or_import(
            init.table_index.0,
            module.imported_tables.len(),
        ) {
            LocalOrImport::Local(local) => if (local as usize) < module.tables.len() {
                Some((store.tables.len() + local as usize, module.tables[local as usize].maximum))
            } else {
                None
            },
            LocalOrImport::Import(imported) => if (imported as usize) < imports.tables.len() {
                Some(
                    (
                        imports.tables[imported as usize].addr,
                        imports.tables[imported as usize].desc.maximum,
                    ),
                )
            } else {
                None
            },
        };
        assert(target == elem_target(store@.tables.len(), module, imports, init));
        let fits = match target {
            Some((addr, max)) => {
                proof {
                    match split_index(init.table_index.0, module.imported_tables.len() as nat) {
                        LocalOrImport::Local(local) => {
                            assert(locals[local as int].valid_in(written));
                            assert(before.tables[addr as int].desc == written.tables[store@.tables.len()
                                + local].desc);
                        },
                        LocalOrImport::Import(imported) => {
                            assert(imports.tables@[imported as int].valid_in(written));
                        },
                    }
                    assert(sizes@[addr as int] == before.tables[addr as int].elements.len());
                }
                match eval_initializer(&init.base, imports, store) {
                    Some(base) => {
                        let top: u128 = base as u128 + init.elements.len() as u128;
                        let reaches = (sizes[addr] as u128) >= top || (top <= u32::MAX as u128 && (match max {
                            Some(limit) => top <= limit as u128,
                            None => true,
                        }));
                        if reaches && check_all_resolvable(module, imports, &init.elements) {
                            if (sizes[addr] as u128) < top {
                                sizes[addr] = top as usize;
                            }
                            proof {
                                lemma_init_table(before, addr as int, base as int, entries);
                            }
                            true
                        } else {
                            false
                        }
                    },
                    None => false,
                }
            },
            None => false,
        };
        proof {
            assert(fits == elem_applicable(before, module, imports, locals, init));
            if !fits && all_elems_applicable(
                written,
                module,
                imports,
                locals,
                vmctx,
                module.elem_initializers@.len(),
            ) {
                lemma_elems_applicable_prefix(
                    written,
                    module,
                    imports,
                    locals,
                    vmctx,
                    module.elem_initializers@.len(),
                    (n + 1) as nat,
                );
            }
        }
        if !fits {
            return false;
        }
        n = n + 1;
    }
    true
}

impl LocalBacking {
    /// Tells, without changing anything, whether `module` can be
    /// instantiated in `store`.
    pub fn can_instantiate(
        module: &ModuleInner,
        imports: &ImportBacking,
        store: &Store,
        vmctx: vm::Ctx,
    ) -> (ok: bool)
        requires
            store.wf(),
            imports.valid_in(store@),
        ensures
            ok == store@.instantiable(module, imports, vmctx),
    {
        if module.memories.len() > usize::MAX - store.memories.len() || module.tables.len()
            > usize::MAX - store.tables.len() || module.globals.len() > usize::MAX
            - store.globals.len() {
            return false;
        }
        check_memories_creatable(store, &module.memories) && check_globals_resolvable(
            module,
            imports,
        ) && check_data(module, imports, store) && check_elems(module, imports, store, vmctx)
    }
}

} // verus!
