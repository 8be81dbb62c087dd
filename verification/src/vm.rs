//! The records that generated machine code reads while an instance runs.
//!
//! Addresses are plain numbers here: the address of a code entry point, of an
//! instance context, of a byte region, or the position of a record in the
//! [`Store`](crate::store::Store).

use vstd::prelude::*;

verus! {

/// The address of an instance context.
#[derive(Clone, Copy, Debug, PartialEq, Eq, Structural)]
pub struct Ctx(pub usize);

/// The address of a function's machine code. Address zero is the null
/// pointer.
#[derive(Clone, Copy, Debug, PartialEq, Eq, Structural)]
pub struct Func(pub usize);

impl Func {
    pub open spec fn spec_is_null(self) -> bool {
        self.0 == 0
    }

    /// Whether this is the null code pointer.
    #[verifier::when_used_as_spec(spec_is_null)]
    pub fn is_null(self) -> (null: bool)
        ensures
            null == self.spec_is_null(),
    {
        self.0 == 0
    }
}

/// A compact number that stands for a function type. An indirect call
/// compares the number at the call site with the one in the table entry.
#[derive(Clone, Copy, Debug, PartialEq, Eq, Structural)]
pub struct SigId(pub u32);

/// What generated code knows of a linear memory: where its bytes start and
/// how many of them can be accessed.
#[derive(Clone, Copy, Debug, PartialEq, Eq, Structural)]
pub struct LocalMemory {
    /// Address of the first byte of the accessible region.
    pub base: u64,
    /// Number of accessible bytes.
    pub bound: usize,
}

/// What generated code knows of a table: how many entries it has.
#[derive(Clone, Copy, Debug, PartialEq, Eq, Structural)]
pub struct LocalTable {
    /// Number of entries.
    pub count: usize,
}

/// The storage of a global: its value, widened to 64 bits.
#[derive(Clone, Copy, Debug, PartialEq, Eq, Structural)]
pub struct LocalGlobal {
    pub data: u64,
}

/// An imported function as generated code calls it: the code pointer and the
/// context to pass.
#[derive(Clone, Copy, Debug, PartialEq, Eq, Structural)]
pub struct ImportedFunc {
    pub func: Func,
    pub vmctx: Ctx,
}

/// A table entry that can hold any function.
#[derive(Clone, Copy, Debug, PartialEq, Eq, Structural)]
pub struct Anyfunc {
    pub func: Func,
    pub ctx: Ctx,
    pub sig_id: SigId,
}

impl Anyfunc {
    /// The entry of an empty table slot.
    pub open spec fn spec_null() -> Anyfunc {
        Anyfunc { func: Func(0), ctx: Ctx(0), sig_id: SigId(u32::MAX) }
    }

    /// The entry of an empty table slot: no code, no context, and a signature
    /// number that no function type has.
    #[verifier::when_used_as_spec(spec_null)]
    pub fn null() -> (entry: Anyfunc)
        ensures
            entry == Anyfunc::spec_null(),
    {
        Anyfunc { func: Func(0), ctx: Ctx(0), sig_id: SigId(u32::MAX) }
    }
}

/// The position of a memory's [`LocalMemory`] record in the store.
#[derive(Clone, Copy, Debug, PartialEq, Eq, Structural)]
pub struct LocalMemoryRef(pub usize);

/// The position of a table's [`LocalTable`] record in the store.
#[derive(Clone, Copy, Debug, PartialEq, Eq, Structural)]
pub struct LocalTableRef(pub usize);

/// The position of a global's [`LocalGlobal`] record in the store.
#[derive(Clone, Copy, Debug, PartialEq, Eq, Structural)]
pub struct LocalGlobalRef(pub usize);

} // verus!
