//! Linear memory that is reserved once and grows in place.

use vstd::prelude::*;
use crate::error::CreationError;
use crate::memory::dynamic::growth_allowed;
use crate::sys;
use crate::sys::zeros;
use crate::types::MemoryDescriptor;
use crate::units::Pages;
use crate::vm;

verus! {

/// Number of bytes that a static memory reserves for its contents: 4 GiB,
/// the most that a linear memory can hold.
pub const SAFE_STATIC_HEAP_SIZE: u64 = 0x1_0000_0000;

/// Number of guard bytes behind the contents of a static memory: 2 GiB.
pub const SAFE_STATIC_GUARD_SIZE: u64 = 0x8000_0000;

/// A linear memory that reserves its largest size at creation. Growing
/// makes more of the region accessible; the bytes never move.
#[derive(Debug)]
pub struct StaticMemory {
    pub memory: sys::Memory,
    pub current: Pages,
    pub max: Option<Pages>,
}

/// A linear memory for several threads. None can be created yet.
#[derive(Debug)]
pub struct SharedStaticMemory {
    pub current: Pages,
    pub max: Pages,
}

impl StaticMemory {
    /// The accessible bytes are exactly the current pages, and the region
    /// is the whole reservation for contents and guard.
    pub open spec fn wf(&self) -> bool {
        &&& self.memory.wf()
        &&& self.memory.bytes.len() == self.current.byte_count()
        &&& self.memory.bytes.len() <= SAFE_STATIC_HEAP_SIZE
        &&& self.memory.size == SAFE_STATIC_HEAP_SIZE + SAFE_STATIC_GUARD_SIZE
    }

    /// Whether a static memory can be made from `desc` in `space`: its
    /// minimum fits in the address range of the machine and in the part of
    /// the region that is reserved for contents, and the region can be
    /// reserved.
    pub open spec fn creatable(desc: MemoryDescriptor, space: sys::AddressSpace) -> bool {
        &&& desc.minimum.addressable()
        &&& desc.minimum.byte_count() <= SAFE_STATIC_HEAP_SIZE
        &&& space.can_reserve(SAFE_STATIC_HEAP_SIZE + SAFE_STATIC_GUARD_SIZE)
    }

    /// Reserves the region for contents and guard, makes the minimum size of
    /// `desc` accessible and zero, and records where the bytes are in
    /// `local`.
    pub fn new(
        desc: MemoryDescriptor,
        local: &mut vm::LocalMemory,
        space: &mut sys::AddressSpace,
    ) -> (made: Result<StaticMemory, CreationError>)
        requires
            old(space).wf(),
        ensures
            final(space).wf(),
            made.is_ok() == Self::creatable(desc, *old(space)),
            made matches Err(e) ==> {
                &&& e == CreationError::UnableToCreateMemory
                &&& *final(space) == *old(space)
                &&& *final(local) == *old(local)
            },
            made matches Ok(storage) ==> {
                &&& storage.wf()
                &&& storage.current == desc.minimum
                &&& storage.max == desc.maximum
                &&& storage.memory.base == old(space).next
                &&& storage.memory.bytes@ == zeros(desc.minimum.byte_count() as nat)
                &&& final(space).next == old(space).next + storage.memory.size
                &&& *final(local) == (vm::LocalMemory {
                    base: storage.memory.base,
                    bound: desc.minimum.byte_count() as usize,
                })
            },
    {
        if !desc.minimum.is_addressable() {
            return Err(CreationError::UnableToCreateMemory);
        }
        let min_bytes = desc.minimum.bytes();
        if min_bytes.0 as u64 > SAFE_STATIC_HEAP_SIZE {
            return Err(CreationError::UnableToCreateMemory);
        }
        let mut memory = match sys::Memory::with_size(
            SAFE_STATIC_HEAP_SIZE + SAFE_STATIC_GUARD_SIZE,
            space,
        ) {
            Ok(memory) => memory,
            Err(_) => {
                return Err(CreationError::UnableToCreateMemory);
            },
        };
        if desc.minimum.0 != 0 {
            match memory.commit(min_bytes.0) {
                Ok(_) => {},
                Err(_) => {
                    return Err(CreationError::UnableToCreateMemory);
                },
            }
        }
        local.base = memory.as_ptr();
        local.bound = min_bytes.0;
        Ok(StaticMemory { memory, current: desc.minimum, max: desc.maximum })
    }

    /// The size of the memory, in pages.
    pub fn size(&self) -> (pages: Pages)
        ensures
            pages == self.current,
    {
        self.current
    }

    /// Whether the memory can grow by `delta` pages, this being more than
    /// none: the new size is within its limits and fits in the address range
    /// of the machine.
    pub open spec fn can_grow(&self, delta: Pages) -> bool {
        &&& growth_allowed(self.current, self.max, delta)
        &&& Pages((self.current.0 + delta.0) as u32).addressable()
    }

    /// Grows the memory by `delta` pages and gives the size it had before.
    /// The new bytes are zero and follow the old ones in place: the address
    /// of the bytes stays, and `local` gets the new bound. Growing by
    /// nothing changes nothing. Where the memory cannot grow, the result is
    /// `None` and nothing changes.
    pub fn grow(&mut self, delta: Pages, local: &mut vm::LocalMemory) -> (previous: Option<Pages>)
        requires
            old(self).wf(),
        ensures
            final(self).wf(),
            final(self).max == old(self).max,
            final(self).memory.base == old(self).memory.base,
            final(local).base == old(local).base,
            previous.is_some() == (delta.0 == 0 || old(self).can_grow(delta)),
            previous matches Some(pages) ==> pages == old(self).current,
            previous.is_none() || delta.0 == 0 ==> {
                &&& *final(self) == *old(self)
                &&& *final(local) == *old(local)
            },
            previous.is_some() && delta.0 != 0 ==> {
                &&& final(self).current.0 == old(self).current.0 + delta.0
                &&& final(self).memory.bytes@ == old(self).memory.bytes@ + zeros(
                    delta.byte_count() as nat,
                )
                &&& final(local).bound == final(self).memory.bytes.len()
            },
    {
        if delta.0 == 0 {
            return Some(self.current);
        }
        let new_pages = match self.current.checked_add(delta) {
            Some(pages) => pages,
            None => {
                return None;
            },
        };
        if let Some(max) = self.max {
            if new_pages.0 > max.0 {
                return None;
            }
        }
        if !new_pages.is_addressable() {
            return None;
        }
        let new_bytes = new_pages.bytes();
        match self.memory.commit(new_bytes.0) {
            Ok(_) => {},
            Err(_) => {
                return None;
            },
        }
        local.bound = new_bytes.0;
        let old_pages = self.current;
        self.current = new_pages;
        Some(old_pages)
    }

    /// The accessible bytes.
    pub fn as_slice(&self) -> (bytes: &[u8])
        ensures
            bytes@ == self.memory.bytes@,
    {
        self.memory.bytes.as_slice()
    }

    /// The accessible bytes, to be written in place. Their number cannot
    /// change through the slice.
    pub fn as_slice_mut(&mut self) -> (bytes: &mut [u8])
        ensures
            bytes@ == old(self).memory.bytes@,
            final(self).memory.bytes@ == final(bytes)@,
            final(self).memory.base == old(self).memory.base,
            final(self).memory.size == old(self).memory.size,
            final(self).current == old(self).current,
            final(self).max == old(self).max,
    {
        self.memory.bytes.as_mut_slice()
    }
}

} // verus!
