use runtime_core::backing::{ImportBacking, LocalBacking};
use runtime_core::export::{Context, Export, FuncPointer};
use runtime_core::global::Global;
use runtime_core::import::{ImportObject, Namespace};
use runtime_core::memory::Memory;
use runtime_core::module::{
    DataInitializer, FuncResolver, ImportName, ModuleInner, SigRegistry, TableInitializer,
};
use runtime_core::store::Store;
use runtime_core::table::Table;
use runtime_core::types::{
    ElementType, FuncIndex, FuncSig, GlobalDescriptor, GlobalInit, ImportedGlobalIndex,
    Initializer, MemoryDescriptor, MemoryIndex, SigIndex, TableDescriptor, TableIndex, Type, Value,
};
use runtime_core::units::Pages;
use runtime_core::vm::{Anyfunc, Ctx, Func, LocalGlobalRef, LocalMemoryRef, LocalTableRef, SigId};

fn empty_module() -> ModuleInner {
    ModuleInner {
        memories: vec![],
        tables: vec![],
        globals: vec![],
        imported_functions: vec![],
        imported_memories: vec![],
        imported_tables: vec![],
        imported_globals: vec![],
        data_initializers: vec![],
        elem_initializers: vec![],
        func_assoc: vec![],
        sig_registry: SigRegistry { signatures: vec![] },
        func_resolver: FuncResolver { code: vec![] },
    }
}

fn name(namespace: &str, name: &str) -> ImportName {
    ImportName { namespace: namespace.to_string(), name: name.to_string() }
}

fn memory_desc(minimum: u32, maximum: Option<u32>) -> MemoryDescriptor {
    MemoryDescriptor { minimum: Pages(minimum), maximum: maximum.map(Pages), shared: false }
}

fn table_desc(minimum: u32, maximum: Option<u32>) -> TableDescriptor {
    TableDescriptor { element: ElementType::Anyfunc, minimum, maximum }
}

fn no_imports() -> ImportBacking {
    let mut imports = ImportObject::new();
    ImportBacking::new(&empty_module(), &mut imports, Ctx(0)).unwrap()
}

fn link(module: &ModuleInner, entries: Vec<(&str, Export)>, vmctx: Ctx) -> ImportBacking {
    let mut namespace = Namespace::new();
    for (entry, export) in entries {
        namespace.insert(entry.to_string(), export);
    }
    let mut imports = ImportObject::new();
    imports.register("env".to_string(), namespace);
    ImportBacking::new(module, &mut imports, vmctx).unwrap()
}

#[test]
fn minimal_memory_data_init() {
    let mut module = empty_module();
    module.memories.push(memory_desc(1, Some(1)));
    module.data_initializers.push(DataInitializer {
        memory_index: MemoryIndex(0),
        base: Initializer::Const(Value::I32(0)),
        data: vec![0xDE, 0xAD, 0xBE, 0xEF],
    });
    let mut store = Store::new();
    let backing = LocalBacking::new(&module, &no_imports(), &mut store, Ctx(0x1000));
    let memory = backing.memories[0];
    assert_eq!(memory.read::<u32>(&store, 0), Ok(0xEFBEADDE));
    assert_eq!(memory.read::<u8>(&store, 4), Ok(0x00));
    assert_eq!(memory.size(&store), Pages(1));
    assert_eq!(backing.vm_memories, vec![LocalMemoryRef(memory.addr)]);
}

#[test]
fn element_init_grows_table() {
    let mut module = empty_module();
    module.tables.push(table_desc(2, None));
    module.func_assoc = vec![SigIndex(1), SigIndex(0)];
    module.sig_registry.signatures = vec![
        FuncSig { params: vec![], results: vec![] },
        FuncSig { params: vec![Type::I32], results: vec![] },
    ];
    module.func_resolver.code = vec![Func(0x7000), Func(0x7100)];
    module.elem_initializers.push(TableInitializer {
        table_index: TableIndex(0),
        base: Initializer::Const(Value::I32(3)),
        elements: vec![FuncIndex(0), FuncIndex(1)],
    });
    let mut store = Store::new();
    let vmctx = Ctx(0x1000);
    let backing = LocalBacking::new(&module, &no_imports(), &mut store, vmctx);
    let table = backing.tables[0];
    assert_eq!(table.size(&store), 5);
    assert_eq!(
        table.get(&store, 3),
        Some(Anyfunc { func: Func(0x7000), ctx: vmctx, sig_id: SigId(1) })
    );
    assert_eq!(
        table.get(&store, 4),
        Some(Anyfunc { func: Func(0x7100), ctx: vmctx, sig_id: SigId(0) })
    );
    for slot in 0..3 {
        assert_eq!(table.get(&store, slot), Some(Anyfunc::null()));
    }
    assert_eq!(table.get(&store, 5), None);
    assert_eq!(store.tables[table.addr].local.count, 5);
    assert_eq!(backing.vm_tables, vec![LocalTableRef(table.addr)]);
}

#[test]
fn data_init_into_imported_memory() {
    let mut store = Store::new();
    let mut supplied = Memory::new(&mut store, memory_desc(1, None)).unwrap();
    let mut module = empty_module();
    module.imported_memories.push((name("env", "memory"), memory_desc(1, None)));
    module.data_initializers.push(DataInitializer {
        memory_index: MemoryIndex(0),
        base: Initializer::Const(Value::I32(10)),
        data: vec![0x01, 0x02],
    });
    let imports = link(&module, vec![("memory", supplied.to_export())], Ctx(0x1000));
    let backing = LocalBacking::new(&module, &imports, &mut store, Ctx(0x1000));
    assert!(backing.memories.is_empty());
    assert_eq!(supplied.read_many::<u8>(&store, 9, 4), Ok(vec![0, 0x01, 0x02, 0]));
    assert_eq!(imports.memories[0].read_many::<u8>(&store, 10, 2), Ok(vec![0x01, 0x02]));
}

#[test]
fn data_initializers_apply_in_order() {
    let mut store = Store::new();
    let mut supplied = Memory::new(&mut store, memory_desc(1, None)).unwrap();
    let mut module = empty_module();
    module.imported_memories.push((name("env", "memory"), memory_desc(1, None)));
    module.memories.push(memory_desc(1, None));
    module.memories.push(memory_desc(2, Some(2)));
    module.data_initializers = vec![
        DataInitializer {
            memory_index: MemoryIndex(2),
            base: Initializer::Const(Value::I32(65_536)),
            data: vec![1, 2, 3, 4],
        },
        DataInitializer {
            memory_index: MemoryIndex(1),
            base: Initializer::Const(Value::I32(65_533)),
            data: vec![9, 9, 9],
        },
        DataInitializer {
            memory_index: MemoryIndex(0),
            base: Initializer::Const(Value::I32(-1)),
            data: vec![],
        },
        DataInitializer {
            memory_index: MemoryIndex(2),
            base: Initializer::Const(Value::I32(65_538)),
            data: vec![7, 8, 9],
        },
    ];
    let imports = link(&module, vec![("memory", supplied.to_export())], Ctx(0x1000));
    let backing = LocalBacking::new(&module, &imports, &mut store, Ctx(0x1000));
    assert_eq!(backing.memories.len(), 2);
    assert_eq!(
        backing.memories[1].read_many::<u8>(&store, 65_535, 7),
        Ok(vec![0, 1, 2, 7, 8, 9, 0])
    );
    assert_eq!(backing.memories[0].read_many::<u8>(&store, 65_532, 4), Ok(vec![0, 9, 9, 9]));
    assert_eq!(supplied.read_many::<u8>(&store, 0, 8), Ok(vec![0; 8]));
    assert_eq!(backing.memories[0].size(&store), Pages(1));
    assert_eq!(backing.memories[1].size(&store), Pages(2));
}

#[test]
fn offsets_from_imported_globals() {
    let mut store = Store::new();
    let mut offset = Global::new(&mut store, Value::I32(100));
    let mut slot = Global::new(&mut store, Value::I32(1));
    let mut module = empty_module();
    module.imported_globals = vec![
        (name("env", "offset"), GlobalDescriptor { mutable: false, ty: Type::I32 }),
        (name("env", "slot"), GlobalDescriptor { mutable: false, ty: Type::I32 }),
    ];
    module.memories.push(memory_desc(1, None));
    module.tables.push(table_desc(4, Some(4)));
    module.func_assoc = vec![SigIndex(0)];
    module.sig_registry.signatures = vec![FuncSig { params: vec![], results: vec![] }];
    module.func_resolver.code = vec![Func(0x7000)];
    module.data_initializers.push(DataInitializer {
        memory_index: MemoryIndex(0),
        base: Initializer::GetGlobal(ImportedGlobalIndex(0)),
        data: vec![5],
    });
    module.elem_initializers.push(TableInitializer {
        table_index: TableIndex(0),
        base: Initializer::GetGlobal(ImportedGlobalIndex(1)),
        elements: vec![FuncIndex(0)],
    });
    let imports = link(
        &module,
        vec![("offset", offset.to_export()), ("slot", slot.to_export())],
        Ctx(0x1000),
    );
    let backing = LocalBacking::new(&module, &imports, &mut store, Ctx(0x1000));
    assert_eq!(backing.memories[0].read::<u8>(&store, 100), Ok(5));
    assert_eq!(backing.tables[0].size(&store), 4);
    assert_eq!(backing.tables[0].get(&store, 1).map(|entry| entry.func), Some(Func(0x7000)));
    assert_eq!(backing.tables[0].get(&store, 0), Some(Anyfunc::null()));
}

#[test]
fn globals_start_with_constants_or_imports() {
    let mut store = Store::new();
    let mut supplied = Global::new_mutable(&mut store, Value::I64(-5));
    let mut module = empty_module();
    module.imported_globals.push((
        name("env", "g"),
        GlobalDescriptor { mutable: true, ty: Type::I64 },
    ));
    module.globals = vec![
        GlobalInit {
            desc: GlobalDescriptor { mutable: true, ty: Type::I32 },
            init: Initializer::Const(Value::I32(-7)),
        },
        GlobalInit {
            desc: GlobalDescriptor { mutable: false, ty: Type::I64 },
            init: Initializer::GetGlobal(ImportedGlobalIndex(0)),
        },
        GlobalInit {
            desc: GlobalDescriptor { mutable: false, ty: Type::F32 },
            init: Initializer::Const(Value::F32(2.5f32.to_bits())),
        },
    ];
    let imports = link(&module, vec![("g", supplied.to_export())], Ctx(0x1000));
    let backing = LocalBacking::new(&module, &imports, &mut store, Ctx(0x1000));
    assert_eq!(backing.globals.len(), 3);
    assert_eq!(backing.globals[0].get(&store), Value::I32(-7));
    assert_eq!(backing.globals[0].descriptor(), GlobalDescriptor { mutable: true, ty: Type::I32 });
    assert_eq!(backing.globals[1].get(&store), Value::I64(-5));
    assert_eq!(
        backing.globals[1].descriptor(),
        GlobalDescriptor { mutable: false, ty: Type::I64 }
    );
    assert_eq!(backing.globals[2].get(&store), Value::F32(2.5f32.to_bits()));
    assert_eq!(supplied.set(&mut store, Value::I64(9)), Ok(()));
    assert_eq!(backing.globals[1].get(&store), Value::I64(-5));
    assert_eq!(
        backing.vm_globals,
        vec![
            LocalGlobalRef(backing.globals[0].addr),
            LocalGlobalRef(backing.globals[1].addr),
            LocalGlobalRef(backing.globals[2].addr),
        ]
    );
}

#[test]
fn elements_of_imported_functions_in_an_imported_table() {
    let mut store = Store::new();
    let mut supplied = Table::new(&mut store, table_desc(1, Some(8))).unwrap();
    let mut module = empty_module();
    module.imported_functions = vec![name("env", "host"), name("env", "inner")];
    module.imported_tables.push((name("env", "table"), table_desc(1, Some(8))));
    module.func_assoc = vec![SigIndex(0), SigIndex(0), SigIndex(1)];
    module.sig_registry.signatures = vec![
        FuncSig { params: vec![], results: vec![] },
        FuncSig { params: vec![Type::I64], results: vec![Type::I64] },
    ];
    module.func_resolver.code = vec![Func(0x9000)];
    module.elem_initializers = vec![
        TableInitializer {
            table_index: TableIndex(0),
            base: Initializer::Const(Value::I32(0)),
            elements: vec![FuncIndex(2), FuncIndex(0)],
        },
        TableInitializer {
            table_index: TableIndex(0),
            base: Initializer::Const(Value::I32(1)),
            elements: vec![FuncIndex(1)],
        },
        TableInitializer {
            table_index: TableIndex(0),
            base: Initializer::Const(Value::I32(4)),
            elements: vec![],
        },
    ];
    let vmctx = Ctx(0x1000);
    let function = |code: usize, ctx: Context| Export::Function {
        func: FuncPointer(Func(code)),
        ctx,
        signature: FuncSig { params: vec![], results: vec![] },
    };
    let imports = link(
        &module,
        vec![
            ("host", function(0x4000, Context::External(Ctx(0x77)))),
            ("inner", function(0x5000, Context::Internal)),
            ("table", supplied.to_export()),
        ],
        vmctx,
    );
    let backing = LocalBacking::new(&module, &imports, &mut store, vmctx);
    assert!(backing.tables.is_empty());
    assert_eq!(supplied.size(&store), 4);
    assert_eq!(
        supplied.get(&store, 0),
        Some(Anyfunc { func: Func(0x9000), ctx: vmctx, sig_id: SigId(1) })
    );
    assert_eq!(
        supplied.get(&store, 1),
        Some(Anyfunc { func: Func(0x5000), ctx: vmctx, sig_id: SigId(0) })
    );
    assert_eq!(supplied.get(&store, 2), Some(Anyfunc::null()));
    assert_eq!(supplied.get(&store, 3), Some(Anyfunc::null()));
}

#[test]
fn local_memories_have_their_minimum() {
    let mut module = empty_module();
    module.memories = vec![memory_desc(0, None), memory_desc(2, Some(5)), memory_desc(1, Some(1))];
    let mut store = Store::new();
    let unrelated = Memory::new(&mut store, memory_desc(1, None)).unwrap();
    let backing = LocalBacking::new(&module, &no_imports(), &mut store, Ctx(1));
    assert_eq!(backing.memories.len(), 3);
    for (memory, desc) in backing.memories.iter().zip(module.memories.iter()) {
        assert_eq!(memory.descriptor(), *desc);
        assert!(memory.size(&store).0 >= desc.minimum.0);
        if let Some(maximum) = desc.maximum {
            assert!(memory.size(&store).0 <= maximum.0);
        }
        assert_eq!(memory.size(&store), desc.minimum);
    }
    assert_eq!(unrelated.size(&store), Pages(1));
    assert_eq!(backing.memories[0].addr, unrelated.addr + 1);
}

fn can(module: &ModuleInner, imports: &ImportBacking, store: &Store) -> bool {
    assert!(imports.is_valid_in(store));
    LocalBacking::can_instantiate(module, imports, store, Ctx(0x1000))
}

#[test]
fn valid_modules_can_be_instantiated() {
    let store = Store::new();
    assert!(can(&empty_module(), &no_imports(), &store));
    let mut module = empty_module();
    module.memories.push(memory_desc(1, Some(1)));
    module.tables.push(table_desc(2, Some(5)));
    module.func_assoc = vec![SigIndex(0)];
    module.func_resolver.code = vec![Func(0x7000)];
    module.data_initializers.push(DataInitializer {
        memory_index: MemoryIndex(0),
        base: Initializer::Const(Value::I32(65_532)),
        data: vec![1, 2, 3, 4],
    });
    module.elem_initializers.push(TableInitializer {
        table_index: TableIndex(0),
        base: Initializer::Const(Value::I32(4)),
        elements: vec![FuncIndex(0)],
    });
    assert!(can(&module, &no_imports(), &store));
    assert!(store.memories.is_empty());
    assert!(store.tables.is_empty());
}

#[test]
fn data_beyond_the_minimum_is_refused() {
    let store = Store::new();
    let mut module = empty_module();
    module.memories.push(memory_desc(1, Some(2)));
    module.data_initializers.push(DataInitializer {
        memory_index: MemoryIndex(0),
        base: Initializer::Const(Value::I32(65_533)),
        data: vec![1, 2, 3, 4],
    });
    assert!(!can(&module, &no_imports(), &store));
    module.data_initializers[0].data = vec![];
    assert!(can(&module, &no_imports(), &store));
    module.data_initializers[0].data = vec![1];
    module.data_initializers[0].base = Initializer::Const(Value::I32(-1));
    assert!(!can(&module, &no_imports(), &store));
    module.data_initializers[0].base = Initializer::Const(Value::I32(0));
    module.data_initializers[0].memory_index = MemoryIndex(1);
    assert!(!can(&module, &no_imports(), &store));
}

#[test]
fn offsets_must_be_32_bit_integers() {
    let store = Store::new();
    let mut module = empty_module();
    module.memories.push(memory_desc(1, None));
    module.data_initializers.push(DataInitializer {
        memory_index: MemoryIndex(0),
        base: Initializer::Const(Value::I64(0)),
        data: vec![1],
    });
    assert!(!can(&module, &no_imports(), &store));
    module.data_initializers[0].base = Initializer::GetGlobal(ImportedGlobalIndex(0));
    assert!(!can(&module, &no_imports(), &store));
    module.data_initializers.clear();
    module.tables.push(table_desc(1, None));
    module.elem_initializers.push(TableInitializer {
        table_index: TableIndex(0),
        base: Initializer::Const(Value::F32(0)),
        elements: vec![],
    });
    assert!(!can(&module, &no_imports(), &store));
}

#[test]
fn data_beyond_an_imported_memory_is_refused() {
    let mut store = Store::new();
    let mut supplied = Memory::new(&mut store, memory_desc(1, None)).unwrap();
    let mut module = empty_module();
    module.imported_memories.push((name("env", "memory"), memory_desc(1, None)));
    module.data_initializers.push(DataInitializer {
        memory_index: MemoryIndex(0),
        base: Initializer::Const(Value::I32(65_536)),
        data: vec![1],
    });
    let imports = link(&module, vec![("memory", supplied.to_export())], Ctx(0x1000));
    assert!(!can(&module, &imports, &store));
    assert_eq!(supplied.grow(&mut store, Pages(1)), Some(Pages(1)));
    assert!(can(&module, &imports, &store));
}

#[test]
fn tables_that_cannot_grow_are_refused() {
    let store = Store::new();
    let mut module = empty_module();
    module.tables.push(table_desc(2, Some(4)));
    module.func_assoc = vec![SigIndex(0)];
    module.func_resolver.code = vec![Func(0x7000)];
    module.elem_initializers = vec![
        TableInitializer {
            table_index: TableIndex(0),
            base: Initializer::Const(Value::I32(3)),
            elements: vec![FuncIndex(0)],
        },
        TableInitializer {
            table_index: TableIndex(0),
            base: Initializer::Const(Value::I32(4)),
            elements: vec![FuncIndex(0)],
        },
    ];
    assert!(!can(&module, &no_imports(), &store));
    module.elem_initializers[1].elements.clear();
    assert!(can(&module, &no_imports(), &store));
    module.elem_initializers[1].base = Initializer::Const(Value::I32(5));
    assert!(!can(&module, &no_imports(), &store));
    module.elem_initializers.pop();
    module.elem_initializers[0].table_index = TableIndex(1);
    assert!(!can(&module, &no_imports(), &store));
}

#[test]
fn functions_without_code_are_refused() {
    let store = Store::new();
    let mut module = empty_module();
    module.tables.push(table_desc(2, None));
    module.func_assoc = vec![SigIndex(0), SigIndex(0)];
    module.func_resolver.code = vec![Func(0x7000), Func(0)];
    module.elem_initializers.push(TableInitializer {
        table_index: TableIndex(0),
        base: Initializer::Const(Value::I32(0)),
        elements: vec![FuncIndex(0), FuncIndex(1)],
    });
    assert!(!can(&module, &no_imports(), &store));
    module.func_resolver.code[1] = Func(0x7100);
    assert!(can(&module, &no_imports(), &store));
    module.elem_initializers[0].elements[1] = FuncIndex(2);
    assert!(!can(&module, &no_imports(), &store));
}

#[test]
fn shared_memories_and_missing_globals_are_refused() {
    let mut store = Store::new();
    let mut module = empty_module();
    module.memories.push(MemoryDescriptor {
        minimum: Pages(1),
        maximum: Some(Pages(1)),
        shared: true,
    });
    assert!(!can(&module, &no_imports(), &store));
    module.memories[0].shared = false;
    assert!(can(&module, &no_imports(), &store));
    store.space.next = u64::MAX - 4095;
    assert!(!can(&module, &no_imports(), &store));
    let store = Store::new();
    let mut module = empty_module();
    module.globals.push(GlobalInit {
        desc: GlobalDescriptor { mutable: false, ty: Type::I32 },
        init: Initializer::GetGlobal(ImportedGlobalIndex(0)),
    });
    assert!(!can(&module, &no_imports(), &store));
}

#[test]
fn handles_of_another_store_are_noticed() {
    let mut store = Store::new();
    let mut supplied = Global::new(&mut store, Value::I32(1));
    let mut module = empty_module();
    module.imported_globals.push((
        name("env", "g"),
        GlobalDescriptor { mutable: false, ty: Type::I32 },
    ));
    let imports = link(&module, vec![("g", supplied.to_export())], Ctx(0x1000));
    assert!(imports.is_valid_in(&store));
    assert!(supplied.is_valid_in(&store));
    let other = Store::new();
    assert!(!imports.is_valid_in(&other));
    assert!(!supplied.is_valid_in(&other));
    let mut another = Store::new();
    Global::new_mutable(&mut another, Value::I32(1));
    assert!(!supplied.is_valid_in(&another));
}
