//! What an instance or an embedder offers to be imported.

use vstd::prelude::*;
use crate::global::Global;
use crate::memory::Memory;
use crate::table::Table;
use crate::types::FuncSig;
use crate::vm;

verus! {

/// The context that an exported function is to be called with.
#[derive(Clone, Copy, Debug, PartialEq, Eq, Structural)]
pub enum Context {
    /// The context that the supplier names.
    External(vm::Ctx),
    /// The context of the instance that imports the function.
    Internal,
}

/// The code of an exported function.
#[derive(Clone, Copy, Debug, PartialEq, Eq, Structural)]
pub struct FuncPointer(pub vm::Func);

impl FuncPointer {
    /// The address of the code.
    pub fn inner(&self) -> (func: vm::Func)
        ensures
            func == self.0,
    {
        self.0
    }
}

/// Something that can be imported: a function, or a handle to a memory, a
/// table or a global in the store.
#[derive(Debug)]
pub enum Export {
    Function { func: FuncPointer, ctx: Context, signature: FuncSig },
    Memory(Memory),
    Table(Table),
    Global(Global),
}

impl Export {
    /// The name of the kind of this export.
    pub open spec fn spec_kind_name(&self) -> Seq<char> {
        match self {
            Export::Function { .. } => "function"@,
            Export::Memory(_) => "memory"@,
            Export::Table(_) => "table"@,
            Export::Global(_) => "global"@,
        }
    }

    /// The name of the kind of this export: `function`, `memory`, `table`
    /// or `global`.
    pub fn kind_name(&self) -> (name: String)
        ensures
            name@ == self.spec_kind_name(),
    {
        match self {
            Export::Function { .. } => "function".to_string(),
            Export::Memory(_) => "memory".to_string(),
            Export::Table(_) => "table".to_string(),
            Export::Global(_) => "global".to_string(),
        }
    }
}

impl Memory {
    /// This memory as something to import.
    pub fn to_export(&mut self) -> (export: Export)
        ensures
            export == Export::Memory(*old(self)),
            *final(self) == *old(self),
    {
        Export::Memory(*self)
    }
}

impl Table {
    /// This table as something to import.
    pub fn to_export(&mut self) -> (export: Export)
        ensures
            export == Export::Table(*old(self)),
            *final(self) == *old(self),
    {
        Export::Table(*self)
    }
}

impl Global {
    /// This global as something to import.
    pub fn to_export(&mut self) -> (export: Export)
        ensures
            export == Export::Global(*old(self)),
            *final(self) == *old(self),
    {
        Export::Global(*self)
    }
}

} // verus!
