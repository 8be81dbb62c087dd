//! Reserved regions of address space.
//!
//! A region is reserved at a page-aligned address with nothing in it
//! accessible. A prefix of it can then be made readable and writable; the
//! rest stays a guard that faults on access. Addresses are handed out in
//! increasing order, so that two regions never overlap.

use vstd::prelude::*;

verus! {

/// Size of a page of the machine, in bytes.
pub const PAGE_SIZE: u64 = 4096;

/// `n` zero bytes.
pub open spec fn zeros(n: nat) -> Seq<u8> {
    Seq::new(n, |i: int| 0u8)
}

/// `size` rounded up to a whole number of machine pages.
pub open spec fn round_up_to_page_size(size: int) -> int {
    (size + 4095) / 4096 * 4096
}

/// The address space from which regions are reserved.
#[derive(Debug)]
pub struct AddressSpace {
    /// The lowest address that is still free.
    pub next: u64,
}

impl AddressSpace {
    /// The free addresses start at a page boundary above address zero.
    pub open spec fn wf(&self) -> bool {
        self.next % 4096 == 0 && self.next > 0
    }

    /// Whether a region of `size` bytes can still be reserved.
    pub open spec fn can_reserve(&self, size: int) -> bool {
        self.next + round_up_to_page_size(size) <= u64::MAX
    }

    /// An address space with nothing reserved but the page at address zero.
    pub fn new() -> (space: AddressSpace)
        ensures
            space.wf(),
            space.next == PAGE_SIZE,
    {
        AddressSpace { next: PAGE_SIZE }
    }
}

/// A reserved region of address space, of which a prefix is readable and
/// writable.
#[derive(Debug)]
pub struct Memory {
    /// Address of the first byte.
    pub base: u64,
    /// Number of reserved bytes.
    pub size: u64,
    /// The readable and writable prefix.
    pub bytes: Vec<u8>,
}

impl Memory {
    /// The region starts at a page boundary, is a whole number of pages
    /// long, ends within the address space, and its accessible prefix lies
    /// in it.
    pub open spec fn wf(&self) -> bool {
        &&& self.base % 4096 == 0
        &&& self.base > 0
        &&& self.size % 4096 == 0
        &&& self.base + self.size <= u64::MAX
        &&& self.bytes.len() <= self.size
    }

    /// Reserves a region of at least `size` bytes, rounded up to whole
    /// pages, at the lowest free address. Nothing in it is accessible yet.
    /// Fails, and reserves nothing, when the address space is used up.
    pub fn with_size(size: u64, space: &mut AddressSpace) -> (region: Result<Memory, ()>)
        requires
            old(space).wf(),
        ensures
            final(space).wf(),
            region.is_ok() == old(space).can_reserve(size as int),
            region.is_err() ==> *final(space) == *old(space),
            region matches Ok(memory) ==> {
                &&& memory.wf()
                &&& memory.base == old(space).next
                &&& memory.size == round_up_to_page_size(size as int)
                &&& memory.bytes@ == Seq::<u8>::empty()
                &&& final(space).next == old(space).next + memory.size
            },
    {
        let whole: u64 = size / PAGE_SIZE;
        let pages: u64 = if size % PAGE_SIZE == 0 {
            whole
        } else {
            whole + 1
        };
        if pages > (u64::MAX - space.next) / PAGE_SIZE {
            return Err(());
        }
        let rounded: u64 = pages * PAGE_SIZE;
        let base = space.next;
        space.next = base + rounded;
        Ok(Memory { base, size: rounded, bytes: Vec::new() })
    }

    /// Makes the bytes below `end` readable and writable. Those that were
    /// not accessible before read as zero. Fails, and changes nothing, when
    /// `end` lies beyond the region or below what is accessible already.
    pub fn commit(&mut self, end: usize) -> (done: Result<(), ()>)
        requires
            old(self).wf(),
        ensures
            final(self).wf(),
            final(self).base == old(self).base,
            final(self).size == old(self).size,
            done.is_ok() == (old(self).bytes.len() <= end <= old(self).size),
            done.is_ok() ==> final(self).bytes@ == old(self).bytes@ + zeros(
                (end - old(self).bytes.len()) as nat,
            ),
            done.is_err() ==> final(self).bytes@ == old(self).bytes@,
    {
        if end < self.bytes.len() || end as u64 > self.size {
            return Err(());
        }
        self.bytes.resize(end, 0u8);
        Ok(())
    }

    /// Address of the first byte of the region.
    pub fn as_ptr(&self) -> (base: u64)
        ensures
            base == self.base,
    {
        self.base
    }

    /// Number of reserved bytes.
    pub fn size(&self) -> (size: u64)
        ensures
            size == self.size,
    {
        self.size
    }

    /// The accessible prefix of the region.
    pub fn as_slice(&self) -> (bytes: &[u8])
        ensures
            bytes@ == self.bytes@,
    {
        self.bytes.as_slice()
    }
}

} // verus!
