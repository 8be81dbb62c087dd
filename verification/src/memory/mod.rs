//! Linear memories.

use vstd::prelude::*;
use crate::error::CreationError;
use crate::store::{Store, StoreView};
use crate::le::{holds, splice};
use crate::sys::{round_up_to_page_size, zeros, AddressSpace};
use crate::types::{MemoryDescriptor, ValueType};
use crate::units::Pages;
use crate::vm;

pub mod dynamic;
pub mod static_;

pub use self::dynamic::DynamicMemory;
pub use self::static_::{SharedStaticMemory, StaticMemory};

verus! {

/// How the bytes of a linear memory are laid out.
#[derive(Clone, Copy, Debug, PartialEq, Eq, Structural)]
pub enum MemoryType {
    /// Reallocated on growth.
    Dynamic,
    /// Reserved once at its largest size.
    Static,
    /// Reserved once, and usable from several threads.
    SharedStatic,
}

impl MemoryType {
    /// Number of guard bytes behind a memory of this layout.
    pub fn guard_size(self) -> (size: u64)
        ensures
            size == (match self {
                MemoryType::Dynamic => dynamic::DYNAMIC_GUARD_SIZE as u64,
                MemoryType::Static => static_::SAFE_STATIC_GUARD_SIZE,
                MemoryType::SharedStatic => static_::SAFE_STATIC_GUARD_SIZE,
            }),
    {
        match self {
            MemoryType::Dynamic => dynamic::DYNAMIC_GUARD_SIZE as u64,
            MemoryType::Static => static_::SAFE_STATIC_GUARD_SIZE,
            MemoryType::SharedStatic => static_::SAFE_STATIC_GUARD_SIZE,
        }
    }

    /// Number of bytes that a memory of this layout reserves for its
    /// contents, where that number is fixed.
    pub fn bounds(self) -> (bound: Option<u64>)
        ensures
            bound == (match self {
                MemoryType::Dynamic => None,
                MemoryType::Static => Some(static_::SAFE_STATIC_HEAP_SIZE),
                MemoryType::SharedStatic => Some(static_::SAFE_STATIC_HEAP_SIZE),
            }),
    {
        match self {
            MemoryType::Dynamic => None,
            MemoryType::Static => Some(static_::SAFE_STATIC_HEAP_SIZE),
            MemoryType::SharedStatic => Some(static_::SAFE_STATIC_HEAP_SIZE),
        }
    }
}

/// The bytes of a linear memory, in one of the layouts.
#[derive(Debug)]
pub enum MemoryStorage {
    Dynamic(DynamicMemory),
    Static(StaticMemory),
    SharedStatic(SharedStaticMemory),
}

impl MemoryStorage {
    /// The layout of this storage.
    pub fn to_type(&self) -> (kind: MemoryType)
        ensures
            kind == self.kind(),
    {
        match self {
            MemoryStorage::Dynamic(_) => MemoryType::Dynamic,
            MemoryStorage::Static(_) => MemoryType::Static,
            MemoryStorage::SharedStatic(_) => MemoryType::SharedStatic,
        }
    }

    /// The layout of this storage.
    pub open spec fn kind(&self) -> MemoryType {
        match self {
            MemoryStorage::Dynamic(_) => MemoryType::Dynamic,
            MemoryStorage::Static(_) => MemoryType::Static,
            MemoryStorage::SharedStatic(_) => MemoryType::SharedStatic,
        }
    }

    /// The accessible bytes.
    pub open spec fn bytes(&self) -> Seq<u8> {
        match self {
            MemoryStorage::Dynamic(memory) => memory.memory.bytes@,
            MemoryStorage::Static(memory) => memory.memory.bytes@,
            MemoryStorage::SharedStatic(_) => Seq::empty(),
        }
    }

    /// Address of the first byte.
    pub open spec fn base(&self) -> u64 {
        match self {
            MemoryStorage::Dynamic(memory) => memory.memory.base,
            MemoryStorage::Static(memory) => memory.memory.base,
            MemoryStorage::SharedStatic(_) => 0,
        }
    }

    /// Number of reserved bytes, from the first byte on.
    pub open spec fn reserved(&self) -> u64 {
        match self {
            MemoryStorage::Dynamic(memory) => memory.memory.size,
            MemoryStorage::Static(memory) => memory.memory.size,
            MemoryStorage::SharedStatic(_) => 0,
        }
    }

    /// The size in pages.
    pub open spec fn current(&self) -> Pages {
        match self {
            MemoryStorage::Dynamic(memory) => memory.current,
            MemoryStorage::Static(memory) => memory.current,
            MemoryStorage::SharedStatic(memory) => memory.current,
        }
    }

    /// The largest size that the memory may grow to, if limited.
    pub open spec fn max(&self) -> Option<Pages> {
        match self {
            MemoryStorage::Dynamic(memory) => memory.max,
            MemoryStorage::Static(memory) => memory.max,
            MemoryStorage::SharedStatic(memory) => Some(memory.max),
        }
    }

    /// The storage is one that can be created, and well formed.
    pub open spec fn wf(&self) -> bool {
        match self {
            MemoryStorage::Dynamic(memory) => memory.wf(),
            MemoryStorage::Static(memory) => memory.wf(),
            MemoryStorage::SharedStatic(_) => false,
        }
    }

    /// The accessible bytes.
    pub fn as_slice(&self) -> (bytes: &[u8])
        requires
            self.wf(),
        ensures
            bytes@ == self.bytes(),
    {
        match self {
            MemoryStorage::Dynamic(memory) => memory.as_slice(),
            MemoryStorage::Static(memory) => memory.as_slice(),
            MemoryStorage::SharedStatic(_) => unreached(),
        }
    }

    /// The accessible bytes, to be written in place. Their number cannot
    /// change through the slice.
    pub fn as_slice_mut(&mut self) -> (bytes: &mut [u8])
        requires
            old(self).wf(),
        ensures
            bytes@ == old(self).bytes(),
            final(self).bytes() == final(bytes)@,
            final(self).kind() == old(self).kind(),
            final(self).base() == old(self).base(),
            final(self).reserved() == old(self).reserved(),
            final(self).current() == old(self).current(),
            final(self).max() == old(self).max(),
            final(bytes)@.len() == bytes@.len() ==> final(self).wf(),
    {
        match self {
            MemoryStorage::Dynamic(memory) => memory.as_slice_mut(),
            MemoryStorage::Static(memory) => memory.as_slice_mut(),
            MemoryStorage::SharedStatic(_) => unreached(),
        }
    }
}

/// A linear memory as it lives in the store: its bytes, and the record
/// that generated code reads.
#[derive(Debug)]
pub struct MemoryCell {
    pub desc: MemoryDescriptor,
    pub storage: MemoryStorage,
    pub local: vm::LocalMemory,
}

/// A linear memory as a mathematical value.
pub struct MemoryView {
    pub desc: MemoryDescriptor,
    /// Address of the first byte.
    pub base: u64,
    /// The accessible bytes.
    pub bytes: Seq<u8>,
}

impl MemoryView {
    /// The size in pages.
    pub open spec fn size(self) -> Pages {
        Pages((self.bytes.len() / 65_536) as u32)
    }

    /// What generated code knows of the memory.
    pub open spec fn local(self) -> vm::LocalMemory {
        vm::LocalMemory { base: self.base, bound: self.bytes.len() as usize }
    }
}

impl View for MemoryCell {
    type V = MemoryView;

    open spec fn view(&self) -> MemoryView {
        MemoryView { desc: self.desc, base: self.storage.base(), bytes: self.storage.bytes() }
    }
}

impl MemoryCell {
    /// The storage is laid out and limited as the descriptor says, it is
    /// never smaller than the minimum, it exceeds the maximum only where
    /// the minimum does, and generated code sees where its bytes are and
    /// how many there are.
    pub open spec fn wf(&self) -> bool {
        &&& self.storage.wf()
        &&& self.storage.kind() == self.desc.spec_memory_type()
        &&& self.storage.max() == self.desc.maximum
        &&& self.desc.minimum.0 <= self.storage.current().0
        &&& self.desc.maximum matches Some(limit) ==> (self.storage.current().0 <= limit.0
            || self.storage.current() == self.desc.minimum)
        &&& self.local.base == self.storage.base()
        &&& self.local.bound == self.storage.bytes().len()
    }
}

/// Number of bytes of address space that a memory of `desc` reserves.
pub open spec fn reserved_size(desc: MemoryDescriptor) -> int {
    match desc.spec_memory_type() {
        MemoryType::Dynamic => round_up_to_page_size(DynamicMemory::reservation(desc.minimum)),
        _ => static_::SAFE_STATIC_HEAP_SIZE + static_::SAFE_STATIC_GUARD_SIZE,
    }
}

/// Whether a memory can be made from `desc` when `next` is the lowest free
/// address.
pub open spec fn creatable(desc: MemoryDescriptor, next: u64) -> bool {
    match desc.spec_memory_type() {
        MemoryType::Dynamic => DynamicMemory::creatable(desc, AddressSpace { next }),
        _ => StaticMemory::creatable(desc, AddressSpace { next }),
    }
}

/// Whether the memory `memory` can grow by `delta` pages, this being more
/// than none, when `next` is the lowest free address: the new size is
/// within the limits of the memory and of the machine and, where the bytes
/// must move, a region for them can be reserved.
pub open spec fn can_grow(memory: MemoryView, delta: Pages, next: u64) -> bool {
    let grown = Pages((memory.size().0 + delta.0) as u32);
    &&& dynamic::growth_allowed(memory.size(), memory.desc.maximum, delta)
    &&& grown.addressable()
    &&& memory.desc.spec_memory_type() == MemoryType::Dynamic ==> (AddressSpace {
        next,
    }).can_reserve(DynamicMemory::reservation(grown))
}

impl StoreView {
    /// This store after a memory of `desc` was made in it.
    pub open spec fn create_memory(self, desc: MemoryDescriptor) -> StoreView {
        StoreView {
            next: (self.next + reserved_size(desc)) as u64,
            memories: self.memories.push(
                MemoryView {
                    desc,
                    base: self.next,
                    bytes: zeros(desc.minimum.byte_count() as nat),
                },
            ),
            ..self
        }
    }

    /// This store after the memory at `addr` grew by `delta` pages, this
    /// being more than none: zero bytes follow the old ones, and the bytes
    /// have moved to the lowest address that was free if the memory is one
    /// that is reallocated.
    pub open spec fn grow_memory(self, addr: int, delta: Pages) -> StoreView {
        let memory = self.memories[addr];
        let bytes = memory.bytes + zeros(delta.byte_count() as nat);
        if memory.desc.spec_memory_type() == MemoryType::Dynamic {
            StoreView {
                next: (self.next + round_up_to_page_size(
                    bytes.len() + dynamic::DYNAMIC_GUARD_SIZE,
                )) as u64,
                memories: self.memories.update(
                    addr,
                    MemoryView { desc: memory.desc, base: self.next, bytes },
                ),
                ..self
            }
        } else {
            self.with_memory(addr, MemoryView { bytes, ..memory })
        }
    }

    /// This store after `patch` was written to the memory at `addr` from
    /// byte `offset` on.
    pub open spec fn write_memory(self, addr: int, offset: int, patch: Seq<u8>) -> StoreView {
        let memory = self.memories[addr];
        self.with_memory(addr, MemoryView { bytes: splice(memory.bytes, offset, patch), ..memory })
    }
}

/// The bytes of `values`, one value after the other.
pub open spec fn encode_many<T: ValueType>(values: Seq<T>) -> Seq<u8>
    decreases values.len(),
{
    if values.len() == 0 {
        Seq::empty()
    } else {
        encode_many(values.drop_last()) + values.last().le_encoding()
    }
}

/// The `count` values that `bytes` spell from byte `offset` on, one after
/// the other.
pub open spec fn decode_many<T: ValueType>(bytes: Seq<u8>, offset: int, count: nat) -> Seq<T> {
    Seq::new(
        count,
        |i: int| T::le_decoding(bytes.subrange(offset + i * T::size(), offset + (i + 1) * T::size())),
    )
}

/// The values that `bytes` spell, one after the other from the first byte
/// on, as many as fit. Bytes at the end that are too few for a value belong
/// to none.
pub open spec fn typed_view<T: ValueType>(bytes: Seq<u8>) -> Seq<T> {
    decode_many::<T>(bytes, 0, (bytes.len() / T::size()) as nat)
}

/// A handle to a linear memory in the store.
#[derive(Clone, Copy, Debug, PartialEq, Eq, Structural)]
pub struct Memory {
    pub desc: MemoryDescriptor,
    pub addr: usize,
}

impl Memory {
    /// The handle names a memory of `store`, of the descriptor that the
    /// handle carries.
    pub open spec fn valid_in(&self, store: StoreView) -> bool {
        self.addr < store.memories.len() && store.memories[self.addr as int].desc == self.desc
    }

    /// Tells whether the handle names a memory of `store`, of the
    /// descriptor that the handle carries.
    pub fn is_valid_in(&self, store: &Store) -> (valid: bool)
        ensures
            valid == self.valid_in(store@),
    {
        self.addr < store.memories.len() && store.memories[self.addr].desc == self.desc
    }

    /// Adds to the store a memory of the minimum size of `desc`, all bytes
    /// zero. Fails, and changes nothing, when the minimum size is more than
    /// the machine can address or the layout can hold, or when no region
    /// can be reserved.
    pub fn new(store: &mut Store, desc: MemoryDescriptor) -> (made: Result<Memory, CreationError>)
        requires
            old(store).wf(),
            !desc.shared,
        ensures
            final(store).wf(),
            made.is_ok() == creatable(desc, old(store)@.next),
            made matches Err(e) ==> {
                &&& e == CreationError::UnableToCreateMemory
                &&& final(store)@ == old(store)@
            },
            made matches Ok(memory) ==> {
                &&& memory == (Memory { desc, addr: old(store)@.memories.len() as usize })
                &&& memory.valid_in(final(store)@)
                &&& final(store)@ == old(store)@.create_memory(desc)
            },
    {
        let mut local = vm::LocalMemory { base: 0, bound: 0 };
        let made = match desc.memory_type() {
            MemoryType::Dynamic => match DynamicMemory::new(desc, &mut local, &mut store.space) {
                Ok(storage) => Ok(MemoryStorage::Dynamic(storage)),
                Err(e) => Err(e),
            },
            _ => match StaticMemory::new(desc, &mut local, &mut store.space) {
                Ok(storage) => Ok(MemoryStorage::Static(storage)),
                Err(e) => Err(e),
            },
        };
        match made {
            Ok(storage) => {
                let addr = store.memories.len();
                store.memories.push(MemoryCell { desc, storage, local });
                proof {
                    assert(store@.memories =~= old(store)@.create_memory(desc).memories);
                }
                Ok(Memory { desc, addr })
            },
            Err(e) => {
                Err(e)
            },
        }
    }

    /// The descriptor that the memory was made from.
    pub fn descriptor(&self) -> (desc: MemoryDescriptor)
        ensures
            desc == self.desc,
    {
        self.desc
    }

    /// Grows the memory by `delta` pages and gives the size it had before.
    /// The new bytes are zero and the old ones keep their values. Growing
    /// by nothing changes nothing. Where the memory cannot grow, the result
    /// is `None` and nothing changes.
    pub fn grow(&mut self, store: &mut Store, delta: Pages) -> (previous: Option<Pages>)
        requires
            old(store).wf(),
            old(self).valid_in(old(store)@),
        ensures
            final(store).wf(),
            *final(self) == *old(self),
            final(self).valid_in(final(store)@),
            previous.is_some() == (delta.0 == 0 || can_grow(
                old(store)@.memories[old(self).addr as int],
                delta,
                old(store)@.next,
            )),
            previous matches Some(pages) ==> pages == old(store)@.memories[old(
                self,
            ).addr as int].size(),
            previous.is_none() || delta.0 == 0 ==> final(store)@ == old(store)@,
            previous.is_some() && delta.0 != 0 ==> final(store)@ == old(store)@.grow_memory(
                old(self).addr as int,
                delta,
            ),
    {
        let cell = &mut store.memories[self.addr];
        let previous = match &mut cell.storage {
            MemoryStorage::Dynamic(dynamic_memory) => dynamic_memory.grow(
                delta,
                &mut cell.local,
                &mut store.space,
            ),
            MemoryStorage::Static(static_memory) => static_memory.grow(delta, &mut cell.local),
            MemoryStorage::SharedStatic(_) => unreached(),
        };
        proof {
            if previous.is_none() || delta.0 == 0 {
                assert(store@.memories =~= old(store)@.memories);
            } else {
                assert(store@.memories =~= old(store)@.grow_memory(
                    self.addr as int,
                    delta,
                ).memories);
            }
        }
        previous
    }

    /// The size of the memory, in pages.
    pub fn size(&self, store: &Store) -> (pages: Pages)
        requires
            store.wf(),
            self.valid_in(store@),
        ensures
            pages == store@.memories[self.addr as int].size(),
    {
        match &store.memories[self.addr].storage {
            MemoryStorage::Dynamic(dynamic_memory) => dynamic_memory.size(),
            MemoryStorage::Static(static_memory) => static_memory.size(),
            MemoryStorage::SharedStatic(_) => unreached(),
        }
    }

    /// Reads a value from the bytes that start at `offset`. Fails when the
    /// value would end beyond the accessible bytes.
    pub fn read<T: ValueType>(&self, store: &Store, offset: u32) -> (value: Result<T, ()>)
        requires
            store.wf(),
            self.valid_in(store@),
        ensures
            value == (if offset + T::size() <= store@.memories[self.addr as int].bytes.len() {
                Ok::<T, ()>(
                    T::le_decoding(
                        store@.memories[self.addr as int].bytes.subrange(
                            offset as int,
                            offset + T::size(),
                        ),
                    ),
                )
            } else {
                Err::<T, ()>(())
            }),
    {
        let offset = offset as usize;
        let mem_slice = store.memories[self.addr].storage.as_slice();
        if holds(mem_slice.len(), offset, T::byte_size()) {
            match T::from_le(mem_slice, offset) {
                Ok(value) => Ok(value),
                Err(_) => Err(()),
            }
        } else {
            Err(())
        }
    }

    /// Writes `value` to the bytes that start at `offset`, and touches no
    /// other byte. Fails, and changes nothing, when the value would end
    /// beyond the accessible bytes.
    pub fn write<T: ValueType>(
        &self,
        store: &mut Store,
        offset: u32,
        value: T,
    ) -> (written: Result<(), ()>)
        requires
            old(store).wf(),
            self.valid_in(old(store)@),
        ensures
            final(store).wf(),
            written.is_ok() == (offset + T::size()
                <= old(store)@.memories[self.addr as int].bytes.len()),
            written.is_ok() ==> final(store)@ == old(store)@.write_memory(
                self.addr as int,
                offset as int,
                value.le_encoding(),
            ),
            written.is_err() ==> final(store)@ == old(store)@,
    {
        let offset = offset as usize;
        let mem_slice = store.memories[self.addr].storage.as_slice_mut();
        let written = if holds(mem_slice.len(), offset, T::byte_size()) {
            value.into_le(mem_slice, offset);
            Ok(())
        } else {
            Err(())
        };
        proof {
            if written.is_ok() {
                assert(store@.memories =~= old(store)@.write_memory(
                    self.addr as int,
                    offset as int,
                    value.le_encoding(),
                ).memories);
            } else {
                assert(store@.memories =~= old(store)@.memories);
            }
        }
        written
    }

    /// Reads `count` values, one after the other, from the bytes that start
    /// at `offset`. Fails when the last value would end beyond the
    /// accessible bytes.
    pub fn read_many<T: ValueType>(
        &self,
        store: &Store,
        offset: u32,
        count: usize,
    ) -> (values: Result<Vec<T>, ()>)
        requires
            store.wf(),
            self.valid_in(store@),
        ensures
            values.is_ok() == (offset + count * T::size()
                <= store@.memories[self.addr as int].bytes.len()),
            values matches Ok(read) ==> read@ == decode_many::<T>(
                store@.memories[self.addr as int].bytes,
                offset as int,
                count as nat,
            ),
    {
        let offset = offset as usize;
        let mem_slice = store.memories[self.addr].storage.as_slice();
        let fits = match count.checked_mul(T::byte_size()) {
            Some(bytes_size) => holds(mem_slice.len(), offset, bytes_size),
            None => false,
        };
        if fits {
            Ok(decode_from(mem_slice, offset, count))
        } else {
            Err(())
        }
    }

    /// Writes `values`, one after the other, to the bytes that start at
    /// `offset`, and touches no other byte. Fails, and changes nothing, when
    /// the last value would end beyond the accessible bytes.
    pub fn write_many<T: ValueType>(
        &self,
        store: &mut Store,
        offset: u32,
        values: &[T],
    ) -> (written: Result<(), ()>)
        requires
            old(store).wf(),
            self.valid_in(old(store)@),
        ensures
            final(store).wf(),
            written.is_ok() == (offset + values@.len() * T::size() <= old(
                store,
            )@.memories[self.addr as int].bytes.len()),
            written.is_ok() ==> final(store)@ == old(store)@.write_memory(
                self.addr as int,
                offset as int,
                encode_many(values@),
            ),
            written.is_err() ==> final(store)@ == old(store)@,
    {
        let offset = offset as usize;
        let size = T::byte_size();
        let bound = store.memories[self.addr].storage.as_slice().len();
        let fits = match values.len().checked_mul(size) {
            Some(bytes_size) => holds(bound, offset, bytes_size),
            None => false,
        };
        if !fits {
            return Err(());
        }
        let ghost before = old(store)@.memories[self.addr as int].bytes;
        let mem_slice = store.memories[self.addr].storage.as_slice_mut();
        let mut position: usize = offset;
        let mut i: usize = 0;
        proof {
            assert(0 * size == 0) by (nonlinear_arith);
        }
        while i < values.len()
            invariant
                i <= values.len(),
                size == T::size(),
                before.len() == mem_slice@.len(),
                before.len() == bound,
                offset + values@.len() * size <= before.len(),
                position == offset + i * size,
                encode_many(values@.subrange(0, i as int)).len() == i * size,
                mem_slice@ == splice(
                    before,
                    offset as int,
                    encode_many(values@.subrange(0, i as int)),
                ),
            decreases values.len() - i,
        {
            let ghost done = values@.subrange(0, i as int);
            let ghost next = values@.subrange(0, i + 1);
            proof {
                assert((i + 1) * size == i * size + size) by (nonlinear_arith);
                assert((i + 1) * size <= values@.len() * size) by (nonlinear_arith)
                    requires
                        i + 1 <= values@.len(),
                ;
                assert(next.drop_last() =~= done);
                values@[i as int].lemma_encoding();
            }
            values[i].into_le(mem_slice, position);
            position = position + size;
            i = i + 1;
        }
        proof {
            assert(values@.subrange(0, values@.len() as int) =~= values@);
            assert(store@.memories =~= old(store)@.write_memory(
                self.addr as int,
                offset as int,
                encode_many(values@),
            ).memories);
        }
        Ok(())
    }

    /// Hands to `f` the contents of the memory as values of type `T`, and
    /// gives what `f` gives.
    pub fn direct_access<T: ValueType, F, R>(&self, store: &Store, f: F) -> (r: R) where
        F: FnOnce(&[T]) -> R,

        requires
            store.wf(),
            self.valid_in(store@),
            forall|s: &[T]|
                s@ == typed_view::<T>(store@.memories[self.addr as int].bytes) ==> f.requires((s,)),
        ensures
            exists|s: &[T]|
                s@ == typed_view::<T>(store@.memories[self.addr as int].bytes) && f.ensures(
                    (s,),
                    r,
                ),
    {
        let mem_slice = store.memories[self.addr].storage.as_slice();
        let size = T::byte_size();
        proof {
            lemma_encoding_size::<T>();
        }
        let count = mem_slice.len() / size;
        assert(count * size <= mem_slice.len()) by (nonlinear_arith)
            requires
                count == mem_slice.len() / size,
                size > 0,
        ;
        let typed = decode_from::<T>(mem_slice, 0, count);
        f(typed.as_slice())
    }

    /// Hands to `f` the contents of the memory as values of type `T`, to be
    /// changed in place, and gives what `f` gives. What `f` leaves in the
    /// slice is written back to the memory from the first byte on.
    pub fn direct_access_mut<T: ValueType, F, R>(&self, store: &mut Store, f: F) -> (r: R) where
        F: FnOnce(&mut [T]) -> R,

        requires
            old(store).wf(),
            self.valid_in(old(store)@),
            forall|s: &mut [T]|
                s@ == typed_view::<T>(old(store)@.memories[self.addr as int].bytes) ==> f.requires(
                    (s,),
                ),
        ensures
            final(store).wf(),
            exists|s: &mut [T]|
                s@ == typed_view::<T>(old(store)@.memories[self.addr as int].bytes) && f.ensures(
                    (s,),
                    r,
                ) && final(store)@ == (if final(s)@.len() == s@.len() {
                    old(store)@.write_memory(self.addr as int, 0, encode_many(final(s)@))
                } else {
                    old(store)@
                }),
    {
        let mem_slice = store.memories[self.addr].storage.as_slice();
        let size = T::byte_size();
        proof {
            lemma_encoding_size::<T>();
        }
        let count = mem_slice.len() / size;
        assert(count * size <= mem_slice.len()) by (nonlinear_arith)
            requires
                count == mem_slice.len() / size,
                size > 0,
        ;
        let mut typed = decode_from::<T>(mem_slice, 0, count);
        let r = f(typed.as_mut_slice());
        if typed.len() == count {
            self.write_many(store, 0, typed.as_slice()).unwrap();
        }
        r
    }

    /// Where generated code finds the record of the memory.
    pub fn vm_local_memory(&mut self) -> (place: vm::LocalMemoryRef)
        ensures
            place.0 == old(self).addr,
            *final(self) == *old(self),
    {
        vm::LocalMemoryRef(self.addr)
    }
}

/// Reads `count` values, one after the other, from the bytes of `bytes`
/// that start at `offset`.
fn decode_from<T: ValueType>(bytes: &[u8], offset: usize, count: usize) -> (read: Vec<T>)
    requires
        offset + count * T::size() <= bytes.len(),
    ensures
        read@ == decode_many::<T>(bytes@, offset as int, count as nat),
{
    let size = T::byte_size();
    let mut read: Vec<T> = Vec::new();
    let mut position: usize = offset;
    let mut i: usize = 0;
    assert(0 * size == 0) by (nonlinear_arith);
    while i < count
        invariant
            i <= count,
            size == T::size(),
            offset + count * size <= bytes.len(),
            position == offset + i * size,
            read@ == decode_many::<T>(bytes@, offset as int, i as nat),
        decreases count - i,
    {
        assert((i + 1) * size == i * size + size) by (nonlinear_arith);
        assert((i + 1) * size <= count * size) by (nonlinear_arith)
            requires
                i + 1 <= count,
        ;
        match T::from_le(bytes, position) {
            Ok(value) => {
                read.push(value);
            },
            Err(_) => unreached(),
        }
        position = position + size;
        i = i + 1;
    }
    read
}

/// A value of any type takes between one and eight bytes.
pub proof fn lemma_encoding_size<T: ValueType>()
    ensures
        1 <= T::size() <= 8,
{
    T::lemma_size();
}

/// Values take as many bytes together as each takes alone, times their
/// number.
pub proof fn lemma_encode_many_len<T: ValueType>(values: Seq<T>)
    ensures
        encode_many(values).len() == values.len() * T::size(),
    decreases values.len(),
{
    if values.len() > 0 {
        lemma_encode_many_len(values.drop_last());
        values.last().lemma_encoding();
        assert((values.len() - 1) * T::size() + T::size() == values.len() * T::size())
            by (nonlinear_arith);
    } else {
        assert(0 * T::size() == 0) by (nonlinear_arith);
    }
}

/// Bytes are their own encoding.
pub proof fn lemma_encode_many_bytes(values: Seq<u8>)
    ensures
        encode_many::<u8>(values) == values,
    decreases values.len(),
{
    if values.len() > 0 {
        lemma_encode_many_bytes(values.drop_last());
        let last = values.last();
        reveal_with_fuel(crate::le::le_bytes, 2);
        assert(last.le_encoding() =~= seq![last]);
        assert(encode_many::<u8>(values) =~= values);
    }
}

/// A memory is never smaller than its minimum, and never larger than its
/// maximum where it has one that is not below the minimum.
pub proof fn lemma_size_within_limits(store: &Store, memory: Memory)
    requires
        store.wf(),
        memory.valid_in(store@),
    ensures
        memory.desc.minimum.0 <= store@.memories[memory.addr as int].size().0,
        memory.desc.maximum matches Some(limit) ==> (memory.desc.minimum.0 <= limit.0
            ==> store@.memories[memory.addr as int].size().0 <= limit.0),
        store@.memories[memory.addr as int].bytes.len()
            == store@.memories[memory.addr as int].size().byte_count(),
        store@.memories[memory.addr as int].local() == store.memories[memory.addr as int].local,
{
    let cell = store.memories[memory.addr as int];
    assert(cell.wf());
    assert(cell@ == store@.memories[memory.addr as int]);
    assert(cell@.bytes.len() == cell.storage.current().0 * 65_536);
}

/// A memory that grew is larger by as many pages as it grew by; its old
/// bytes are where they were, with the values they had, and the new bytes
/// are zero. Nothing else in the store has changed.
pub proof fn lemma_grow_memory(store: &Store, memory: Memory, delta: Pages)
    requires
        store.wf(),
        memory.valid_in(store@),
        can_grow(store@.memories[memory.addr as int], delta, store@.next),
    ensures
        ({
            let before = store@.memories[memory.addr as int];
            let after = store@.grow_memory(memory.addr as int, delta).memories[memory.addr as int];
            &&& after.size().0 == before.size().0 + delta.0
            &&& after.desc == before.desc
            &&& after.bytes.len() == before.bytes.len() + delta.byte_count()
            &&& after.bytes.subrange(0, before.bytes.len() as int) == before.bytes
            &&& forall|i: int| before.bytes.len() <= i < after.bytes.len() ==> after.bytes[i] == 0
            &&& memory.desc.spec_memory_type() != MemoryType::Dynamic ==> after.base == before.base
        }),
        store@.grow_memory(memory.addr as int, delta).memories.len() == store@.memories.len(),
        forall|other: int|
            0 <= other < store@.memories.len() && other != memory.addr ==> store@.grow_memory(
                memory.addr as int,
                delta,
            ).memories[other] == store@.memories[other],
        store@.grow_memory(memory.addr as int, delta).tables == store@.tables,
        store@.grow_memory(memory.addr as int, delta).globals == store@.globals,
{
    lemma_size_within_limits(store, memory);
    let before = store@.memories[memory.addr as int];
    let after = store@.grow_memory(memory.addr as int, delta).memories[memory.addr as int];
    assert(after.bytes.subrange(0, before.bytes.len() as int) =~= before.bytes);
    assert(after.bytes.len() == (before.size().0 + delta.0) * 65_536);
}

/// A value that was written is the value that is read from the same place,
/// as long as nothing else is written there.
pub proof fn lemma_read_after_write<T: ValueType>(
    store: StoreView,
    addr: int,
    offset: int,
    value: T,
)
    requires
        0 <= addr < store.memories.len(),
        0 <= offset,
        offset + T::size() <= store.memories[addr].bytes.len(),
    ensures
        store.write_memory(addr, offset, value.le_encoding()).memories[addr].bytes.len()
            == store.memories[addr].bytes.len(),
        T::le_decoding(
            store.write_memory(addr, offset, value.le_encoding()).memories[addr].bytes.subrange(
                offset,
                offset + T::size(),
            ),
        ) == value,
{
    value.lemma_encoding();
    crate::le::lemma_splice_reads_back(store.memories[addr].bytes, offset, value.le_encoding());
}

} // verus!
