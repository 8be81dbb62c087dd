//! What the backing of an instance reads of a compiled module.

use vstd::prelude::*;
use crate::types::{
    FuncIndex, FuncSig, GlobalDescriptor, GlobalInit, Initializer, LocalFuncIndex,
    MemoryDescriptor, MemoryIndex, SigIndex, TableDescriptor, TableIndex,
};
use crate::vm;

verus! {

/// The namespace and the name under which a module expects an import.
#[derive(Debug)]
pub struct ImportName {
    pub namespace: String,
    pub name: String,
}

/// Bytes to be written to a memory at instantiation.
#[derive(Debug)]
pub struct DataInitializer {
    /// The memory to write to.
    pub memory_index: MemoryIndex,
    /// Where in the memory the bytes go.
    pub base: Initializer,
    /// The bytes.
    pub data: Vec<u8>,
}

/// Functions to be written to a table at instantiation.
#[derive(Debug)]
pub struct TableInitializer {
    /// The table to write to.
    pub table_index: TableIndex,
    /// The first slot to write.
    pub base: Initializer,
    /// The functions, one for each slot.
    pub elements: Vec<FuncIndex>,
}

/// The function types of a module, by signature index.
#[derive(Debug)]
pub struct SigRegistry {
    pub signatures: Vec<FuncSig>,
}

impl SigRegistry {
    /// The function type with the index `sig_index`.
    pub fn lookup_signature(&self, sig_index: SigIndex) -> (signature: &FuncSig)
        requires
            sig_index.0 < self.signatures.len(),
        ensures
            *signature == self.signatures[sig_index.0 as int],
    {
        &self.signatures[sig_index.0 as usize]
    }
}

/// Where the code of each function that a module defines was put.
#[derive(Debug)]
pub struct FuncResolver {
    /// The address of the code, by local function index.
    pub code: Vec<vm::Func>,
}

impl FuncResolver {
    /// The code of the function `index`, where the module defines such a
    /// function and its code is not at the null address.
    pub open spec fn spec_get(&self, index: LocalFuncIndex) -> Option<vm::Func> {
        if index.0 < self.code.len() && !self.code[index.0 as int].spec_is_null() {
            Some(self.code[index.0 as int])
        } else {
            None
        }
    }

    /// The code of the function `index`, where the module defines such a
    /// function and its code is not at the null address.
    #[verifier::when_used_as_spec(spec_get)]
    pub fn get(&self, index: LocalFuncIndex) -> (code: Option<vm::Func>)
        ensures
            code == self.spec_get(index),
    {
        if (index.0 as usize) < self.code.len() && !self.code[index.0 as usize].is_null() {
            Some(self.code[index.0 as usize])
        } else {
            None
        }
    }
}

/// What the backing of an instance reads of a compiled module.
#[derive(Debug)]
pub struct ModuleInner {
    /// The memories that the module defines.
    pub memories: Vec<MemoryDescriptor>,
    /// The tables that the module defines.
    pub tables: Vec<TableDescriptor>,
    /// The globals that the module defines.
    pub globals: Vec<GlobalInit>,
    /// The functions that the module imports. The function with the
    /// imported index `i` has the function index `i`.
    pub imported_functions: Vec<ImportName>,
    pub imported_memories: Vec<(ImportName, MemoryDescriptor)>,
    pub imported_tables: Vec<(ImportName, TableDescriptor)>,
    pub imported_globals: Vec<(ImportName, GlobalDescriptor)>,
    /// Bytes to write to memories, in the order of the module.
    pub data_initializers: Vec<DataInitializer>,
    /// Functions to write to tables, in the order of the module.
    pub elem_initializers: Vec<TableInitializer>,
    /// The signature index of each function, imported ones first.
    pub func_assoc: Vec<SigIndex>,
    pub sig_registry: SigRegistry,
    pub func_resolver: FuncResolver,
}

impl ModuleInner {
    /// Whether the function `index` has a signature in the registry.
    pub open spec fn has_signature(&self, index: int) -> bool {
        0 <= index < self.func_assoc.len() && self.func_assoc[index].0
            < self.sig_registry.signatures.len()
    }

    /// Every imported function has a signature in the registry.
    pub open spec fn imports_have_signatures(&self) -> bool {
        forall|i: int| 0 <= i < self.imported_functions.len() ==> self.has_signature(i)
    }

    /// The signature that the module expects of the function `index`.
    pub open spec fn signature_of(&self, index: int) -> FuncSig {
        self.sig_registry.signatures[self.func_assoc[index].0 as int]
    }

    /// Tells at run time whether every imported function has a signature in
    /// the registry.
    pub fn check_imports_have_signatures(&self) -> (holds: bool)
        ensures
            holds == self.imports_have_signatures(),
    {
        let mut i: usize = 0;
        while i < self.imported_functions.len()
            invariant
                i <= self.imported_functions.len(),
                forall|j: int| 0 <= j < i ==> self.has_signature(j),
            decreases self.imported_functions.len() - i,
        {
            if i >= self.func_assoc.len() || self.func_assoc[i].0 as usize
                >= self.sig_registry.signatures.len() {
                assert(!self.has_signature(i as int));
                return false;
            }
            i = i + 1;
        }
        true
    }
}

} // verus!
