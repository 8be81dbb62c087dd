use runtime_core::error::CreationError;
use runtime_core::memory::{Memory, MemoryStorage, MemoryType};
use runtime_core::memory::dynamic::DynamicMemory;
use runtime_core::memory::static_::StaticMemory;
use runtime_core::store::Store;
use runtime_core::sys::AddressSpace;
use runtime_core::types::MemoryDescriptor;
use runtime_core::units::Pages;
use runtime_core::vm::LocalMemory;

fn dynamic(minimum: u32) -> MemoryDescriptor {
    MemoryDescriptor { minimum: Pages(minimum), maximum: None, shared: false }
}

fn limited(minimum: u32, maximum: u32) -> MemoryDescriptor {
    MemoryDescriptor { minimum: Pages(minimum), maximum: Some(Pages(maximum)), shared: false }
}

#[test]
fn grow_dynamic() {
    let mut store = Store::new();
    let mut memory = Memory::new(&mut store, dynamic(1)).unwrap();
    assert_eq!(memory.write::<u8>(&mut store, 65_000, 0x42), Ok(()));
    assert_eq!(memory.grow(&mut store, Pages(2)), Some(Pages(1)));
    assert_eq!(memory.read::<u8>(&store, 65_000), Ok(0x42));
    assert_eq!(memory.size(&store), Pages(3));
    assert_eq!(memory.write::<u8>(&mut store, 131_000, 7), Ok(()));
    assert_eq!(memory.read::<u8>(&store, 131_000), Ok(7));
}

#[test]
fn grow_past_maximum() {
    let mut store = Store::new();
    let mut memory = Memory::new(&mut store, limited(1, 2)).unwrap();
    assert_eq!(memory.grow(&mut store, Pages(2)), None);
    assert_eq!(memory.size(&store), Pages(1));
}

#[test]
fn grow_failure_changes_nothing() {
    let mut store = Store::new();
    let mut memory = Memory::new(&mut store, limited(1, 2)).unwrap();
    assert_eq!(memory.write::<u32>(&mut store, 100, 0x0102_0304), Ok(()));
    let record = store.memories[memory.addr].local;
    let next = store.space.next;
    assert_eq!(memory.grow(&mut store, Pages(5)), None);
    assert_eq!(store.memories[memory.addr].local, record);
    assert_eq!(store.space.next, next);
    assert_eq!(memory.size(&store), Pages(1));
    assert_eq!(memory.read::<u32>(&store, 100), Ok(0x0102_0304));
}

#[test]
fn grow_by_nothing() {
    let mut store = Store::new();
    let mut memory = Memory::new(&mut store, dynamic(2)).unwrap();
    let record = store.memories[memory.addr].local;
    assert_eq!(memory.grow(&mut store, Pages(0)), Some(Pages(2)));
    assert_eq!(memory.size(&store), Pages(2));
    assert_eq!(store.memories[memory.addr].local, record);
}

#[test]
fn grow_static_in_place() {
    let mut store = Store::new();
    let mut memory = Memory::new(&mut store, limited(1, 3)).unwrap();
    let before = store.memories[memory.addr].local;
    assert_eq!(before.bound, 65_536);
    assert_eq!(memory.write::<u16>(&mut store, 10, 0xBEEF), Ok(()));
    assert_eq!(memory.grow(&mut store, Pages(2)), Some(Pages(1)));
    let after = store.memories[memory.addr].local;
    assert_eq!(after.base, before.base);
    assert_eq!(after.bound, 3 * 65_536);
    assert_eq!(memory.read::<u16>(&store, 10), Ok(0xBEEF));
    assert_eq!(memory.read::<u8>(&store, 3 * 65_536 - 1), Ok(0));
    assert_eq!(memory.grow(&mut store, Pages(1)), None);
}

#[test]
fn grow_dynamic_moves_the_bytes() {
    let mut store = Store::new();
    let mut memory = Memory::new(&mut store, dynamic(1)).unwrap();
    let before = store.memories[memory.addr].local;
    assert_eq!(memory.grow(&mut store, Pages(1)), Some(Pages(1)));
    let after = store.memories[memory.addr].local;
    assert_ne!(after.base, before.base);
    assert_eq!(after.bound, 2 * 65_536);
}

#[test]
fn grow_beyond_the_page_limit() {
    let mut store = Store::new();
    let mut memory = Memory::new(&mut store, dynamic(1)).unwrap();
    assert_eq!(memory.grow(&mut store, Pages(65_536)), None);
    assert_eq!(memory.size(&store), Pages(1));
}

#[test]
fn new_memory_has_its_minimum_and_is_zero() {
    let mut store = Store::new();
    let memory = Memory::new(&mut store, limited(2, 4)).unwrap();
    assert_eq!(memory.descriptor(), limited(2, 4));
    assert_eq!(memory.size(&store), Pages(2));
    assert_eq!(memory.read::<u64>(&store, 0), Ok(0));
    assert_eq!(memory.read::<u64>(&store, 2 * 65_536 - 8), Ok(0));
    assert_eq!(store.memories[memory.addr].storage.to_type(), MemoryType::Static);
}

#[test]
fn empty_memory() {
    let mut store = Store::new();
    let memory = Memory::new(&mut store, dynamic(0)).unwrap();
    assert_eq!(memory.size(&store), Pages(0));
    assert_eq!(memory.read::<u8>(&store, 0), Err(()));
    assert_eq!(memory.write::<u8>(&mut store, 0, 1), Err(()));
}

#[test]
fn creation_fails_without_address_space() {
    let mut store = Store::new();
    store.space.next = u64::MAX - 4095;
    let before = store.memories.len();
    assert_eq!(
        Memory::new(&mut store, dynamic(1)).err(),
        Some(CreationError::UnableToCreateMemory)
    );
    assert_eq!(store.memories.len(), before);
    assert_eq!(store.space.next, u64::MAX - 4095);
    assert_eq!(
        Memory::new(&mut store, limited(1, 1)).err(),
        Some(CreationError::UnableToCreateMemory)
    );
}

#[test]
fn read_and_write_at_the_bound() {
    let mut store = Store::new();
    let memory = Memory::new(&mut store, dynamic(1)).unwrap();
    assert_eq!(memory.write::<u32>(&mut store, 65_532, 0xAABB_CCDD), Ok(()));
    assert_eq!(memory.read::<u32>(&store, 65_532), Ok(0xAABB_CCDD));
    assert_eq!(memory.write::<u32>(&mut store, 65_533, 1), Err(()));
    assert_eq!(memory.read::<u32>(&store, 65_533), Err(()));
    assert_eq!(memory.read::<u32>(&store, u32::MAX), Err(()));
    assert_eq!(memory.read::<u32>(&store, 65_532), Ok(0xAABB_CCDD));
}

#[test]
fn write_is_little_endian_and_touches_nothing_else() {
    let mut store = Store::new();
    let memory = Memory::new(&mut store, dynamic(1)).unwrap();
    assert_eq!(memory.write::<u8>(&mut store, 7, 0x11), Ok(()));
    assert_eq!(memory.write::<u8>(&mut store, 12, 0x22), Ok(()));
    assert_eq!(memory.write::<u32>(&mut store, 8, 0xEFBE_ADDE), Ok(()));
    assert_eq!(
        memory.read_many::<u8>(&store, 7, 6),
        Ok(vec![0x11, 0xDE, 0xAD, 0xBE, 0xEF, 0x22])
    );
}

#[test]
fn round_trip_of_every_value_type() {
    let mut store = Store::new();
    let memory = Memory::new(&mut store, dynamic(1)).unwrap();
    assert_eq!(memory.write::<u8>(&mut store, 0, 0xFE), Ok(()));
    assert_eq!(memory.read::<u8>(&store, 0), Ok(0xFE));
    assert_eq!(memory.write::<i8>(&mut store, 1, -2), Ok(()));
    assert_eq!(memory.read::<i8>(&store, 1), Ok(-2));
    assert_eq!(memory.read::<u8>(&store, 1), Ok(0xFE));
    assert_eq!(memory.write::<u16>(&mut store, 2, 0xABCD), Ok(()));
    assert_eq!(memory.read::<u16>(&store, 2), Ok(0xABCD));
    assert_eq!(memory.write::<i16>(&mut store, 4, i16::MIN), Ok(()));
    assert_eq!(memory.read::<i16>(&store, 4), Ok(i16::MIN));
    assert_eq!(memory.write::<u32>(&mut store, 8, u32::MAX), Ok(()));
    assert_eq!(memory.read::<u32>(&store, 8), Ok(u32::MAX));
    assert_eq!(memory.write::<i32>(&mut store, 12, -123_456_789), Ok(()));
    assert_eq!(memory.read::<i32>(&store, 12), Ok(-123_456_789));
    assert_eq!(memory.read::<u32>(&store, 12), Ok((-123_456_789i32) as u32));
    assert_eq!(memory.write::<u64>(&mut store, 16, 0x0123_4567_89AB_CDEF), Ok(()));
    assert_eq!(memory.read::<u64>(&store, 16), Ok(0x0123_4567_89AB_CDEF));
    assert_eq!(memory.read::<u8>(&store, 16), Ok(0xEF));
    assert_eq!(memory.write::<i64>(&mut store, 24, i64::MIN + 5), Ok(()));
    assert_eq!(memory.read::<i64>(&store, 24), Ok(i64::MIN + 5));
    assert_eq!(memory.write::<i64>(&mut store, 32, -1), Ok(()));
    assert_eq!(memory.read::<u64>(&store, 32), Ok(u64::MAX));
}

#[test]
fn round_trip_of_binary_fractions_by_their_bits() {
    let mut store = Store::new();
    let memory = Memory::new(&mut store, dynamic(1)).unwrap();
    let single: f32 = -1.5;
    let double: f64 = 6.02214076e23;
    assert_eq!(memory.write::<u32>(&mut store, 0, single.to_bits()), Ok(()));
    assert_eq!(memory.write::<u64>(&mut store, 8, double.to_bits()), Ok(()));
    assert_eq!(memory.read::<u32>(&store, 0).map(f32::from_bits), Ok(single));
    assert_eq!(memory.read::<u64>(&store, 8).map(f64::from_bits), Ok(double));
}

#[test]
fn read_many_and_write_many() {
    let mut store = Store::new();
    let memory = Memory::new(&mut store, dynamic(1)).unwrap();
    assert_eq!(memory.write_many::<u16>(&mut store, 4, &[0x0102, 0x0304, 0xFFFE]), Ok(()));
    assert_eq!(memory.read_many::<u8>(&store, 3, 8), Ok(vec![0, 2, 1, 4, 3, 0xFE, 0xFF, 0]));
    assert_eq!(memory.read_many::<u16>(&store, 4, 3), Ok(vec![0x0102, 0x0304, 0xFFFE]));
    assert_eq!(memory.read_many::<i16>(&store, 8, 1), Ok(vec![-2]));
    assert_eq!(memory.read_many::<u32>(&store, 0, 0), Ok(vec![]));
    assert_eq!(memory.read_many::<u32>(&store, 65_532, 1), Ok(vec![0]));
    assert_eq!(memory.read_many::<u32>(&store, 65_532, 2), Err(()));
    assert_eq!(memory.read_many::<u64>(&store, 0, usize::MAX), Err(()));
    assert_eq!(memory.write_many::<u32>(&mut store, 65_530, &[1, 2]), Err(()));
    assert_eq!(memory.read_many::<u8>(&store, 65_530, 6), Ok(vec![0; 6]));
}

#[test]
fn memories_do_not_overlap() {
    let mut store = Store::new();
    let first = Memory::new(&mut store, dynamic(1)).unwrap();
    let second = Memory::new(&mut store, limited(1, 1)).unwrap();
    let a = store.memories[first.addr].local;
    let b = store.memories[second.addr].local;
    assert_eq!(a.base % 4096, 0);
    assert_eq!(b.base % 4096, 0);
    assert!(a.base + 65_536 + 4096 <= b.base);
    assert_eq!(first.write::<u8>(&mut store, 0, 1), Ok(()));
    assert_eq!(second.read::<u8>(&store, 0), Ok(0));
}

#[test]
fn handles_share_one_memory() {
    let mut store = Store::new();
    let memory = Memory::new(&mut store, dynamic(1)).unwrap();
    let mut other = memory;
    assert_eq!(other.write::<i32>(&mut store, 40, -7), Ok(()));
    assert_eq!(memory.read::<i32>(&store, 40), Ok(-7));
    assert_eq!(other.grow(&mut store, Pages(1)), Some(Pages(1)));
    assert_eq!(memory.size(&store), Pages(2));
    assert_eq!(other.vm_local_memory().0, memory.addr);
}

#[test]
fn memory_types() {
    assert_eq!(dynamic(1).memory_type(), MemoryType::Dynamic);
    assert_eq!(limited(1, 2).memory_type(), MemoryType::Static);
    let shared = MemoryDescriptor { minimum: Pages(1), maximum: Some(Pages(2)), shared: true };
    assert_eq!(shared.memory_type(), MemoryType::SharedStatic);
    assert_eq!(MemoryType::Dynamic.guard_size(), 4096);
    assert_eq!(MemoryType::Static.guard_size(), 1 << 31);
    assert_eq!(MemoryType::SharedStatic.guard_size(), 1 << 31);
    assert_eq!(MemoryType::Dynamic.bounds(), None);
    assert_eq!(MemoryType::Static.bounds(), Some(1 << 32));
    assert_eq!(MemoryType::SharedStatic.bounds(), Some(1 << 32));
}

#[test]
fn dynamic_memory_by_itself() {
    let mut space = AddressSpace::new();
    let mut local = LocalMemory { base: 0, bound: 0 };
    let mut memory = DynamicMemory::new(dynamic(1), &mut local, &mut space).unwrap();
    assert_eq!(memory.size(), Pages(1));
    assert_eq!(local, LocalMemory { base: 4096, bound: 65_536 });
    assert_eq!(space.next, 4096 + 65_536 + 4096);
    memory.as_slice_mut()[5] = 9;
    assert_eq!(memory.grow(Pages(1), &mut local, &mut space), Some(Pages(1)));
    assert_eq!(memory.size(), Pages(2));
    assert_eq!(memory.as_slice().len(), 2 * 65_536);
    assert_eq!(memory.as_slice()[5], 9);
    assert_eq!(memory.as_slice()[65_536], 0);
    assert_eq!(local, LocalMemory { base: 4096 + 65_536 + 4096, bound: 2 * 65_536 });
    assert_eq!(MemoryStorage::Dynamic(memory).to_type(), MemoryType::Dynamic);
}

#[test]
fn static_memory_by_itself() {
    let mut space = AddressSpace::new();
    let mut local = LocalMemory { base: 0, bound: 0 };
    let mut memory = StaticMemory::new(limited(1, 2), &mut local, &mut space).unwrap();
    assert_eq!(space.next, 4096 + (1 << 32) + (1 << 31));
    memory.as_slice_mut()[65_535] = 3;
    assert_eq!(memory.grow(Pages(1), &mut local), Some(Pages(1)));
    assert_eq!(memory.grow(Pages(1), &mut local), None);
    assert_eq!(memory.size(), Pages(2));
    assert_eq!(memory.as_slice()[65_535], 3);
    assert_eq!(local, LocalMemory { base: 4096, bound: 2 * 65_536 });
    assert_eq!(MemoryStorage::Static(memory).to_type(), MemoryType::Static);
}

#[test]
fn direct_access_views_the_memory_as_values() {
    let mut store = Store::new();
    let memory = Memory::new(&mut store, limited(1, 1)).unwrap();
    assert_eq!(memory.write::<u32>(&mut store, 4, 0x0403_0201), Ok(()));
    assert_eq!(memory.direct_access(&store, |slice: &[u16]| slice.len()), 32_768);
    assert_eq!(memory.direct_access(&store, |slice: &[u64]| slice.len()), 8_192);
    assert_eq!(memory.direct_access(&store, |slice: &[u16]| (slice[2], slice[3])), (0x0201, 0x0403));
    assert_eq!(memory.direct_access(&store, |slice: &[i8]| slice[7]), 4);
    let empty = Memory::new(&mut store, dynamic(0)).unwrap();
    assert_eq!(empty.direct_access(&store, |slice: &[u32]| slice.len()), 0);
}

#[test]
fn direct_access_mut_writes_back() {
    let mut store = Store::new();
    let memory = Memory::new(&mut store, limited(1, 1)).unwrap();
    assert_eq!(memory.write::<u8>(&mut store, 9, 0x77), Ok(()));
    let first = memory.direct_access_mut(&mut store, |slice: &mut [u32]| {
        let before = slice[2];
        slice[0] = 42;
        slice[1] = 0xFFFF_FFFE;
        before
    });
    assert_eq!(first, 0x7700);
    assert_eq!(memory.read::<i32>(&store, 0), Ok(42));
    assert_eq!(memory.read::<i32>(&store, 4), Ok(-2));
    assert_eq!(memory.read::<u8>(&store, 9), Ok(0x77));
    assert_eq!(memory.read_many::<u8>(&store, 0, 5), Ok(vec![42, 0, 0, 0, 0xFE]));
    assert_eq!(memory.size(&store), Pages(1));
}

#[test]
fn guards_lie_between_memories() {
    let mut store = Store::new();
    let mut fixed = Memory::new(&mut store, limited(1, 4)).unwrap();
    let mut moving = Memory::new(&mut store, dynamic(1)).unwrap();
    assert_eq!(fixed.grow(&mut store, Pages(3)), Some(Pages(1)));
    assert_eq!(moving.grow(&mut store, Pages(1)), Some(Pages(1)));
    let last = Memory::new(&mut store, dynamic(0)).unwrap();
    let a = store.memories[fixed.addr].local;
    let b = store.memories[moving.addr].local;
    let c = store.memories[last.addr].local;
    assert!(a.base + a.bound as u64 + (1 << 31) <= b.base);
    assert!(b.base + b.bound as u64 + 4096 <= c.base);
    assert_eq!(c.bound, 0);
}
