//! Linear memory that is reallocated when it grows.

use vstd::prelude::*;
use crate::error::CreationError;
use crate::le::write_bytes;
use crate::sys;
use crate::sys::zeros;
use crate::types::MemoryDescriptor;
use crate::units::{Pages, WASM_MAX_PAGES};
use crate::vm;

verus! {

/// Number of guard bytes behind the accessible bytes of a dynamic memory.
pub const DYNAMIC_GUARD_SIZE: usize = 4096;

/// Whether a memory of `current` pages, limited to `max` if that is set,
/// may grow by `delta` pages.
pub open spec fn growth_allowed(current: Pages, max: Option<Pages>, delta: Pages) -> bool {
    &&& current.0 + delta.0 <= WASM_MAX_PAGES
    &&& max matches Some(limit) ==> current.0 + delta.0 <= limit.0
}

/// A linear memory that reserves only what it holds, plus a guard, and
/// moves to a fresh region when it grows.
#[derive(Debug)]
pub struct DynamicMemory {
    pub memory: sys::Memory,
    pub current: Pages,
    pub max: Option<Pages>,
}

impl DynamicMemory {
    /// The accessible bytes are exactly the current pages, and the guard
    /// follows them inside the region.
    pub open spec fn wf(&self) -> bool {
        &&& self.memory.wf()
        &&& self.memory.bytes.len() == self.current.byte_count()
        &&& self.memory.bytes.len() + DYNAMIC_GUARD_SIZE <= self.memory.size
    }

    /// Number of bytes that a dynamic memory of `pages` pages reserves.
    pub open spec fn reservation(pages: Pages) -> int {
        pages.byte_count() + DYNAMIC_GUARD_SIZE
    }

    /// Whether a dynamic memory can be made from `desc` in `space`.
    pub open spec fn creatable(desc: MemoryDescriptor, space: sys::AddressSpace) -> bool {
        desc.minimum.addressable() && space.can_reserve(Self::reservation(desc.minimum))
    }

    /// Reserves the minimum size of `desc` and a guard behind it, makes the
    /// minimum accessible and zero, and records where the bytes are in
    /// `local`.
    pub fn new(
        desc: MemoryDescriptor,
        local: &mut vm::LocalMemory,
        space: &mut sys::AddressSpace,
    ) -> (made: Result<DynamicMemory, CreationError>)
        requires
            old(space).wf(),
        ensures
            final(space).wf(),
            made.is_ok() == Self::creatable(desc, *old(space)),
            made matches Err(e) ==> {
                &&& e == CreationError::UnableToCreateMemory
                &&& *final(space) == *old(space)
                &&& *final(local) == *old(local)
            },
            made matches Ok(storage) ==> {
                &&& storage.wf()
                &&& storage.current == desc.minimum
                &&& storage.max == desc.maximum
                &&& storage.memory.base == old(space).next
                &&& storage.memory.size == sys::round_up_to_page_size(
                    Self::reservation(desc.minimum),
                )
                &&& storage.memory.bytes@ == zeros(desc.minimum.byte_count() as nat)
                &&& final(space).next == old(space).next + storage.memory.size
                &&& *final(local) == (vm::LocalMemory {
                    base: storage.memory.base,
                    bound: desc.minimum.byte_count() as usize,
                })
            },
    {
        if !desc.minimum.is_addressable() {
            return Err(CreationError::UnableToCreateMemory);
        }
        let min_bytes = desc.minimum.bytes();
        let mut memory = match sys::Memory::with_size(
            min_bytes.0 as u64 + DYNAMIC_GUARD_SIZE as u64,
            space,
        ) {
            Ok(memory) => memory,
            Err(_) => {
                return Err(CreationError::UnableToCreateMemory);
            },
        };
        if desc.minimum.0 != 0 {
            match memory.commit(min_bytes.0) {
                Ok(_) => {},
                Err(_) => {
                    return Err(CreationError::UnableToCreateMemory);
                },
            }
        }
        local.base = memory.as_ptr();
        local.bound = min_bytes.0;
        Ok(DynamicMemory { memory, current: desc.minimum, max: desc.maximum })
    }

    /// The size of the memory, in pages.
    pub fn size(&self) -> (pages: Pages)
        ensures
            pages == self.current,
    {
        self.current
    }

    /// Whether the memory can grow by `delta` pages, this being more than
    /// none: the new size is within its limits, fits in the address range of
    /// the machine, and a region for it can be reserved.
    pub open spec fn can_grow(&self, delta: Pages, space: sys::AddressSpace) -> bool {
        &&& growth_allowed(self.current, self.max, delta)
        &&& Pages((self.current.0 + delta.0) as u32).addressable()
        &&& space.can_reserve(Self::reservation(Pages((self.current.0 + delta.0) as u32)))
    }

    /// Grows the memory by `delta` pages and gives the size it had before.
    /// The bytes move to a fresh region, where they are followed by zero
    /// bytes; `local` gets the new address and bound. Growing by nothing
    /// changes nothing. Where the memory cannot grow, the result is `None`
    /// and nothing changes.
    pub fn grow(
        &mut self,
        delta: Pages,
        local: &mut vm::LocalMemory,
        space: &mut sys::AddressSpace,
    ) -> (previous: Option<Pages>)
        requires
            old(self).wf(),
            old(space).wf(),
        ensures
            final(self).wf(),
            final(space).wf(),
            final(self).max == old(self).max,
            previous.is_some() == (delta.0 == 0 || old(self).can_grow(delta, *old(space))),
            previous matches Some(pages) ==> pages == old(self).current,
            previous.is_none() || delta.0 == 0 ==> {
                &&& *final(self) == *old(self)
                &&& *final(local) == *old(local)
                &&& *final(space) == *old(space)
            },
            previous.is_some() && delta.0 != 0 ==> {
                &&& final(self).current.0 == old(self).current.0 + delta.0
                &&& final(self).memory.bytes@ == old(self).memory.bytes@ + zeros(
                    delta.byte_count() as nat,
                )
                &&& final(self).memory.base == old(space).next
                &&& final(self).memory.size == sys::round_up_to_page_size(
                    Self::reservation(final(self).current),
                )
                &&& final(space).next == old(space).next + final(self).memory.size
                &&& *final(local) == (vm::LocalMemory {
                    base: final(self).memory.base,
                    bound: final(self).memory.bytes.len(),
                })
            },
    {
        if delta.0 == 0 {
            return Some(self.current);
        }
        let new_pages = match self.current.checked_add(delta) {
            Some(pages) => pages,
            None => {
                return None;
            },
        };
        if let Some(max) = self.max {
            if new_pages.0 > max.0 {
                return None;
            }
        }
        if !new_pages.is_addressable() {
            return None;
        }
        let new_bytes = new_pages.bytes();
        let mut new_memory = match sys::Memory::with_size(
            new_bytes.0 as u64 + DYNAMIC_GUARD_SIZE as u64,
            space,
        ) {
            Ok(memory) => memory,
            Err(_) => {
                return None;
            },
        };
        match new_memory.commit(new_bytes.0) {
            Ok(_) => {},
            Err(_) => {
                return None;
            },
        }
        write_bytes(new_memory.bytes.as_mut_slice(), 0, self.memory.as_slice());
        self.memory = new_memory;
        local.base = self.memory.as_ptr();
        local.bound = new_bytes.0;
        let old_pages = self.current;
        self.current = new_pages;
        Some(old_pages)
    }

    /// The accessible bytes.
    pub fn as_slice(&self) -> (bytes: &[u8])
        ensures
            bytes@ == self.memory.bytes@,
    {
        self.memory.bytes.as_slice()
    }

    /// The accessible bytes, to be written in place. Their number cannot
    /// change through the slice.
    pub fn as_slice_mut(&mut self) -> (bytes: &mut [u8])
        ensures
            bytes@ == old(self).memory.bytes@,
            final(self).memory.bytes@ == final(bytes)@,
            final(self).memory.base == old(self).memory.base,
            final(self).memory.size == old(self).memory.size,
            final(self).current == old(self).current,
            final(self).max == old(self).max,
    {
        self.memory.bytes.as_mut_slice()
    }
}

} // verus!
