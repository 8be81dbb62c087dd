use runtime_core::backing::{import_functions, import_globals, import_memories, import_tables, ImportBacking};
use runtime_core::error::LinkError;
use runtime_core::export::{Context, Export, FuncPointer};
use runtime_core::global::Global;
use runtime_core::import::{ImportObject, Namespace};
use runtime_core::memory::Memory;
use runtime_core::module::{FuncResolver, ImportName, ModuleInner, SigRegistry};
use runtime_core::store::Store;
use runtime_core::table::Table;
use runtime_core::types::{
    ElementType, FuncSig, GlobalDescriptor, ImportedFuncIndex, MemoryDescriptor, SigIndex,
    TableDescriptor, Type, Value,
};
use runtime_core::units::Pages;
use runtime_core::vm::{Ctx, Func, ImportedFunc, LocalGlobalRef, LocalMemoryRef, LocalTableRef};

fn empty_module() -> ModuleInner {
    ModuleInner {
        memories: vec![],
        tables: vec![],
        globals: vec![],
        imported_functions: vec![],
        imported_memories: vec![],
        imported_tables: vec![],
        imported_globals: vec![],
        data_initializers: vec![],
        elem_initializers: vec![],
        func_assoc: vec![],
        sig_registry: SigRegistry { signatures: vec![] },
        func_resolver: FuncResolver { code: vec![] },
    }
}

fn name(namespace: &str, name: &str) -> ImportName {
    ImportName { namespace: namespace.to_string(), name: name.to_string() }
}

fn sig(params: Vec<Type>, results: Vec<Type>) -> FuncSig {
    FuncSig { params, results }
}

fn memory_desc(minimum: u32, maximum: Option<u32>) -> MemoryDescriptor {
    MemoryDescriptor { minimum: Pages(minimum), maximum: maximum.map(Pages), shared: false }
}

fn table_desc(minimum: u32, maximum: Option<u32>) -> TableDescriptor {
    TableDescriptor { element: ElementType::Anyfunc, minimum, maximum }
}

fn supply(imports: &mut ImportObject, entries: Vec<(&str, Export)>) {
    let mut namespace = Namespace::new();
    for (entry, export) in entries {
        namespace.insert(entry.to_string(), export);
    }
    imports.register("env".to_string(), namespace);
}

#[test]
fn missing_import() {
    let mut module = empty_module();
    module.imported_functions.push(name("env", "foo"));
    module.func_assoc.push(SigIndex(0));
    module.sig_registry.signatures.push(sig(vec![Type::I32], vec![Type::I32]));
    assert!(module.check_imports_have_signatures());
    let mut imports = ImportObject::new();
    let linked = ImportBacking::new(&module, &mut imports, Ctx(0x1000));
    assert_eq!(
        linked.err(),
        Some(vec![LinkError::ImportNotFound {
            namespace: "env".to_string(),
            name: "foo".to_string()
        }])
    );
}

#[test]
fn wrong_kind() {
    let mut store = Store::new();
    let global = Global::new(&mut store, Value::I32(42));
    let mut module = empty_module();
    module.imported_memories.push((name("env", "x"), memory_desc(1, None)));
    let mut imports = ImportObject::new();
    supply(&mut imports, vec![("x", Export::Global(global))]);
    let linked = ImportBacking::new(&module, &mut imports, Ctx(0x1000));
    assert_eq!(
        linked.err(),
        Some(vec![LinkError::IncorrectImportType {
            namespace: "env".to_string(),
            name: "x".to_string(),
            expected: "memory".to_string(),
            found: "global".to_string(),
        }])
    );
}

#[test]
fn every_kind_is_named_in_errors() {
    let mut store = Store::new();
    let mut memory = Memory::new(&mut store, memory_desc(1, None)).unwrap();
    let mut table = Table::new(&mut store, table_desc(1, None)).unwrap();
    let mut imports = ImportObject::new();
    supply(
        &mut imports,
        vec![
            ("memory", memory.to_export()),
            ("table", table.to_export()),
            (
                "function",
                Export::Function {
                    func: FuncPointer(Func(0x40)),
                    ctx: Context::Internal,
                    signature: sig(vec![], vec![]),
                },
            ),
        ],
    );
    let mut module = empty_module();
    module.imported_functions.push(name("env", "memory"));
    module.func_assoc.push(SigIndex(0));
    module.sig_registry.signatures.push(sig(vec![], vec![]));
    module.imported_tables.push((name("env", "function"), table_desc(1, None)));
    module.imported_globals.push((
        name("env", "table"),
        GlobalDescriptor { mutable: false, ty: Type::I32 },
    ));
    let errors = ImportBacking::new(&module, &mut imports, Ctx(1)).err().unwrap();
    let kinds: Vec<(String, String)> = errors
        .iter()
        .map(|error| match error {
            LinkError::IncorrectImportType { expected, found, .. } => {
                (expected.clone(), found.clone())
            }
            other => panic!("another error: {:?}", other),
        })
        .collect();
    assert_eq!(
        kinds,
        vec![
            ("function".to_string(), "memory".to_string()),
            ("table".to_string(), "function".to_string()),
            ("global".to_string(), "table".to_string()),
        ]
    );
}

#[test]
fn all_errors_are_collected_in_order() {
    let mut store = Store::new();
    let mut small = Memory::new(&mut store, memory_desc(1, Some(2))).unwrap();
    let mut table = Table::new(&mut store, table_desc(5, None)).unwrap();
    let mut global = Global::new_mutable(&mut store, Value::I64(3));
    let mut imports = ImportObject::new();
    supply(
        &mut imports,
        vec![
            (
                "f",
                Export::Function {
                    func: FuncPointer(Func(0x40)),
                    ctx: Context::Internal,
                    signature: sig(vec![Type::I32], vec![]),
                },
            ),
            ("m", small.to_export()),
            ("t", table.to_export()),
            ("g", global.to_export()),
        ],
    );
    let mut module = empty_module();
    module.imported_functions.push(name("env", "f"));
    module.imported_functions.push(name("env", "gone"));
    module.func_assoc = vec![SigIndex(1), SigIndex(0)];
    module.sig_registry.signatures =
        vec![sig(vec![], vec![]), sig(vec![Type::I32], vec![Type::I32])];
    module.imported_memories.push((name("env", "m"), memory_desc(2, Some(2))));
    module.imported_tables.push((name("env", "t"), table_desc(5, Some(10))));
    module.imported_tables.push((name("other", "t"), table_desc(5, None)));
    module.imported_globals.push((
        name("env", "g"),
        GlobalDescriptor { mutable: false, ty: Type::I64 },
    ));
    let before = imports.namespaces.len();
    let errors = ImportBacking::new(&module, &mut imports, Ctx(1)).err().unwrap();
    assert_eq!(imports.namespaces.len(), before);
    assert_eq!(
        errors,
        vec![
            LinkError::IncorrectImportSignature {
                namespace: "env".to_string(),
                name: "f".to_string(),
                expected: sig(vec![Type::I32], vec![Type::I32]),
                found: sig(vec![Type::I32], vec![]),
            },
            LinkError::ImportNotFound { namespace: "env".to_string(), name: "gone".to_string() },
            LinkError::IncorrectMemoryDescriptor {
                namespace: "env".to_string(),
                name: "m".to_string(),
                expected: memory_desc(2, Some(2)),
                found: memory_desc(1, Some(2)),
            },
            LinkError::IncorrectTableDescriptor {
                namespace: "env".to_string(),
                name: "t".to_string(),
                expected: table_desc(5, Some(10)),
                found: table_desc(5, None),
            },
            LinkError::ImportNotFound { namespace: "other".to_string(), name: "t".to_string() },
            LinkError::IncorrectGlobalDescriptor {
                namespace: "env".to_string(),
                name: "g".to_string(),
                expected: GlobalDescriptor { mutable: false, ty: Type::I64 },
                found: GlobalDescriptor { mutable: true, ty: Type::I64 },
            },
        ]
    );
}

#[test]
fn matching_imports_are_linked() {
    let mut store = Store::new();
    let mut unused = Memory::new(&mut store, memory_desc(1, None)).unwrap();
    let mut memory = Memory::new(&mut store, memory_desc(1, Some(1))).unwrap();
    let mut table = Table::new(&mut store, table_desc(10, None)).unwrap();
    let mut global = Global::new(&mut store, Value::I32(42));
    let mut imports = ImportObject::new();
    supply(
        &mut imports,
        vec![
            ("unused", unused.to_export()),
            (
                "print_i32",
                Export::Function {
                    func: FuncPointer(Func(0x4000)),
                    ctx: Context::Internal,
                    signature: sig(vec![Type::I32], vec![Type::I32]),
                },
            ),
            (
                "host",
                Export::Function {
                    func: FuncPointer(Func(0x5000)),
                    ctx: Context::External(Ctx(0x77)),
                    signature: sig(vec![], vec![]),
                },
            ),
            ("memory", memory.to_export()),
            ("table", table.to_export()),
            ("global", global.to_export()),
        ],
    );
    let mut module = empty_module();
    module.imported_functions = vec![name("env", "print_i32"), name("env", "host")];
    module.func_assoc = vec![SigIndex(0), SigIndex(1)];
    module.sig_registry.signatures =
        vec![sig(vec![Type::I32], vec![Type::I32]), sig(vec![], vec![])];
    module.imported_memories.push((name("env", "memory"), memory_desc(1, Some(1))));
    module.imported_tables.push((name("env", "table"), table_desc(10, None)));
    module.imported_globals.push((
        name("env", "global"),
        GlobalDescriptor { mutable: false, ty: Type::I32 },
    ));
    let backing = ImportBacking::new(&module, &mut imports, Ctx(0x1000)).unwrap();
    assert_eq!(
        backing.vm_functions,
        vec![
            ImportedFunc { func: Func(0x4000), vmctx: Ctx(0x1000) },
            ImportedFunc { func: Func(0x5000), vmctx: Ctx(0x77) },
        ]
    );
    assert_eq!(backing.imported_func(ImportedFuncIndex(1)).vmctx, Ctx(0x77));
    assert_eq!(backing.memories, vec![memory]);
    assert_eq!(backing.tables, vec![table]);
    assert_eq!(backing.globals, vec![global]);
    assert_eq!(backing.vm_memories, vec![LocalMemoryRef(memory.addr)]);
    assert_eq!(backing.vm_tables, vec![LocalTableRef(table.addr)]);
    assert_eq!(backing.vm_globals, vec![LocalGlobalRef(global.addr)]);
    assert_eq!(memory.addr, 1);
}

#[test]
fn no_import_no_error() {
    let module = empty_module();
    let mut imports = ImportObject::new();
    let backing = ImportBacking::new(&module, &mut imports, Ctx(1)).unwrap();
    assert!(backing.vm_functions.is_empty());
    assert!(backing.memories.is_empty());
    assert!(backing.tables.is_empty());
    assert!(backing.globals.is_empty());
}

#[test]
fn each_pass_by_itself() {
    let mut store = Store::new();
    let mut memory = Memory::new(&mut store, memory_desc(3, Some(4))).unwrap();
    let mut imports = ImportObject::new();
    supply(&mut imports, vec![("m", memory.to_export())]);
    let mut module = empty_module();
    module.imported_memories.push((name("env", "m"), memory_desc(2, Some(5))));
    module.imported_tables.push((name("env", "m"), table_desc(0, None)));
    module.imported_globals.push((
        name("env", "none"),
        GlobalDescriptor { mutable: true, ty: Type::F64 },
    ));
    assert_eq!(import_functions(&module, &imports, Ctx(1)), Ok(vec![]));
    assert_eq!(
        import_memories(&module, &imports),
        Ok((vec![memory], vec![LocalMemoryRef(memory.addr)]))
    );
    assert_eq!(
        import_tables(&module, &imports).err(),
        Some(vec![LinkError::IncorrectImportType {
            namespace: "env".to_string(),
            name: "m".to_string(),
            expected: "table".to_string(),
            found: "memory".to_string(),
        }])
    );
    assert_eq!(
        import_globals(&module, &imports).err(),
        Some(vec![LinkError::ImportNotFound {
            namespace: "env".to_string(),
            name: "none".to_string()
        }])
    );
}

#[test]
fn later_entries_replace_earlier_ones() {
    let mut store = Store::new();
    let first = Global::new(&mut store, Value::I32(1));
    let second = Global::new(&mut store, Value::I32(2));
    let mut namespace = Namespace::new();
    namespace.insert("g".to_string(), Export::Global(first));
    namespace.insert("h".to_string(), Export::Global(first));
    namespace.insert("g".to_string(), Export::Global(second));
    assert_eq!(namespace.entries.len(), 2);
    match namespace.get_export(&"g".to_string()) {
        Some(Export::Global(found)) => assert_eq!(*found, second),
        other => panic!("not the global: {:?}", other),
    }
    assert!(namespace.get_export(&"i".to_string()).is_none());
    let mut imports = ImportObject::new();
    imports.register("a".to_string(), Namespace::new());
    imports.register("a".to_string(), namespace);
    assert_eq!(imports.namespaces.len(), 1);
    assert!(imports.get_export(&"a".to_string(), &"h".to_string()).is_some());
    assert!(imports.get_export(&"b".to_string(), &"h".to_string()).is_none());
    assert!(imports.get_namespace(&"a".to_string()).is_some());
}

#[test]
fn signatures_compare_by_their_types() {
    let a = sig(vec![Type::I32, Type::F64], vec![Type::I64]);
    assert!(a.same_as(&sig(vec![Type::I32, Type::F64], vec![Type::I64])));
    assert!(!a.same_as(&sig(vec![Type::I32], vec![Type::I64])));
    assert!(!a.same_as(&sig(vec![Type::F64, Type::I32], vec![Type::I64])));
    assert!(!a.same_as(&sig(vec![Type::I32, Type::F64], vec![])));
    assert!(!a.same_as(&sig(vec![Type::I32, Type::F64], vec![Type::F32])));
    assert_eq!(a.duplicate(), a);
}

#[test]
fn imports_without_signatures_are_noticed() {
    let mut module = empty_module();
    module.imported_functions.push(name("env", "f"));
    assert!(!module.check_imports_have_signatures());
    module.func_assoc.push(SigIndex(0));
    assert!(!module.check_imports_have_signatures());
    module.sig_registry.signatures.push(sig(vec![], vec![]));
    assert!(module.check_imports_have_signatures());
}

#[test]
fn accepted_functions_have_the_expected_signature() {
    let mut imports = ImportObject::new();
    supply(
        &mut imports,
        vec![
            (
                "a",
                Export::Function {
                    func: FuncPointer(Func(0x10)),
                    ctx: Context::Internal,
                    signature: sig(vec![Type::I32, Type::I64], vec![Type::F32]),
                },
            ),
            (
                "b",
                Export::Function {
                    func: FuncPointer(Func(0x20)),
                    ctx: Context::Internal,
                    signature: sig(vec![Type::I64, Type::I32], vec![Type::F32]),
                },
            ),
        ],
    );
    let mut module = empty_module();
    module.imported_functions = vec![name("env", "a"), name("env", "b")];
    module.func_assoc = vec![SigIndex(0), SigIndex(0)];
    module.sig_registry.signatures = vec![sig(vec![Type::I32, Type::I64], vec![Type::F32])];
    let errors = ImportBacking::new(&module, &mut imports, Ctx(1)).err().unwrap();
    assert_eq!(errors.len(), 1);
    match &errors[0] {
        LinkError::IncorrectImportSignature { name, expected, found, .. } => {
            assert_eq!(name, "b");
            assert!(expected.same_as(module.sig_registry.lookup_signature(SigIndex(0))));
            assert!(!found.same_as(expected));
        }
        other => panic!("another error: {:?}", other),
    }
    module.imported_functions.pop();
    module.func_assoc.pop();
    let backing = ImportBacking::new(&module, &mut imports, Ctx(1)).unwrap();
    assert_eq!(backing.vm_functions, vec![ImportedFunc { func: Func(0x10), vmctx: Ctx(1) }]);
    match imports.get_export(&"env".to_string(), &"a".to_string()) {
        Some(Export::Function { signature, .. }) => {
            assert!(signature.same_as(module.sig_registry.lookup_signature(SigIndex(0))))
        }
        other => panic!("not the function: {:?}", other),
    }
}

#[test]
fn code_of_local_functions() {
    let resolver = FuncResolver { code: vec![Func(0x100), Func(0)] };
    assert_eq!(resolver.get(runtime_core::types::LocalFuncIndex(0)), Some(Func(0x100)));
    assert_eq!(resolver.get(runtime_core::types::LocalFuncIndex(1)), None);
    assert_eq!(resolver.get(runtime_core::types::LocalFuncIndex(2)), None);
    assert!(Func(0).is_null());
    assert!(!Func(0x100).is_null());
}
