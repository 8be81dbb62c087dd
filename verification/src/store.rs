//! The store: where the memories, tables and globals of all instances live.
//!
//! A handle names an item by its position in the store, so that an item can
//! be shared between the instance that made it and those that import it:
//! whoever holds the handle sees what was last written.

use vstd::prelude::*;
use crate::global::{GlobalCell, GlobalView};
use crate::memory::dynamic::DYNAMIC_GUARD_SIZE;
use crate::memory::static_::SAFE_STATIC_GUARD_SIZE;
use crate::memory::{MemoryCell, MemoryType, MemoryView};
use crate::sys::AddressSpace;
use crate::table::{TableCell, TableView};

verus! {

/// The memories, tables and globals of all instances, and the address space
/// that the memories take their regions from.
#[derive(Debug)]
pub struct Store {
    pub space: AddressSpace,
    pub memories: Vec<MemoryCell>,
    pub tables: Vec<TableCell>,
    pub globals: Vec<GlobalCell>,
}

/// The store as a mathematical value.
pub struct StoreView {
    /// The lowest free address.
    pub next: u64,
    pub memories: Seq<MemoryView>,
    pub tables: Seq<TableView>,
    pub globals: Seq<GlobalView>,
}

impl StoreView {
    /// This store with the memory at `addr` replaced.
    pub open spec fn with_memory(self, addr: int, memory: MemoryView) -> StoreView {
        StoreView { memories: self.memories.update(addr, memory), ..self }
    }

    /// This store with the table at `addr` replaced.
    pub open spec fn with_table(self, addr: int, table: TableView) -> StoreView {
        StoreView { tables: self.tables.update(addr, table), ..self }
    }

    /// This store with the global at `addr` replaced.
    pub open spec fn with_global(self, addr: int, global: GlobalView) -> StoreView {
        StoreView { globals: self.globals.update(addr, global), ..self }
    }
}

impl View for Store {
    type V = StoreView;

    open spec fn view(&self) -> StoreView {
        StoreView {
            next: self.space.next,
            memories: Seq::new(self.memories.len() as nat, |i: int| self.memories[i]@),
            tables: Seq::new(self.tables.len() as nat, |i: int| self.tables[i]@),
            globals: Seq::new(self.globals.len() as nat, |i: int| self.globals[i]@),
        }
    }
}

/// Whether the regions of two memories have no address in common.
pub open spec fn apart(first: MemoryCell, second: MemoryCell) -> bool {
    first.storage.base() + first.storage.reserved() <= second.storage.base()
        || second.storage.base() + second.storage.reserved() <= first.storage.base()
}

impl Store {
    /// Every item in the store is well formed, the region of every memory
    /// lies below the free addresses, and no two of the regions overlap.
    pub open spec fn wf(&self) -> bool {
        &&& self.space.wf()
        &&& forall|i: int| 0 <= i < self.memories.len() ==> (#[trigger] self.memories[i]).wf()
        &&& forall|i: int|
            0 <= i < self.memories.len() ==> (#[trigger] self.memories[i]).storage.base()
                + self.memories[i].storage.reserved() <= self.space.next
        &&& forall|i: int, j: int|
            0 <= i < j < self.memories.len() ==> apart(
                #[trigger] self.memories[i],
                #[trigger] self.memories[j],
            )
        &&& forall|i: int| 0 <= i < self.tables.len() ==> (#[trigger] self.tables[i]).wf()
    }

    /// An empty store, with every address free but those of the first
    /// page.
    pub fn new() -> (store: Store)
        ensures
            store.wf(),
            store@.next == crate::sys::PAGE_SIZE,
            store@.memories.len() == 0,
            store@.tables.len() == 0,
            store@.globals.len() == 0,
    {
        Store {
            space: AddressSpace::new(),
            memories: Vec::new(),
            tables: Vec::new(),
            globals: Vec::new(),
        }
    }
}

/// Number of guard bytes behind the accessible bytes of `memory`.
pub open spec fn guard_of(memory: MemoryView) -> int {
    match memory.desc.spec_memory_type() {
        MemoryType::Dynamic => DYNAMIC_GUARD_SIZE as int,
        _ => SAFE_STATIC_GUARD_SIZE as int,
    }
}

/// Two memories of a store have no accessible byte in common: the bytes of
/// one, and its guard behind them, end before the bytes of the other start.
pub proof fn lemma_memories_apart(store: &Store, first: int, second: int)
    requires
        store.wf(),
        0 <= first < store@.memories.len(),
        0 <= second < store@.memories.len(),
        first != second,
    ensures
        store@.memories[first].base + store@.memories[first].bytes.len() + guard_of(
            store@.memories[first],
        ) <= store@.memories[second].base || store@.memories[second].base
            + store@.memories[second].bytes.len() + guard_of(store@.memories[second])
            <= store@.memories[first].base,
{
    let a = store.memories[first];
    let b = store.memories[second];
    assert(a.wf() && b.wf());
    if first < second {
        assert(apart(a, b));
    } else {
        assert(apart(b, a));
    }
}

} // verus!
