use runtime_core::sys::{AddressSpace, Memory, PAGE_SIZE};

#[test]
fn regions_are_page_aligned_and_disjoint() {
    let mut space = AddressSpace::new();
    assert_eq!(space.next, PAGE_SIZE);
    let first = Memory::with_size(1, &mut space).unwrap();
    assert_eq!(first.as_ptr(), 4096);
    assert_eq!(first.size(), 4096);
    assert!(first.as_slice().is_empty());
    let second = Memory::with_size(4097, &mut space).unwrap();
    assert_eq!(second.as_ptr(), 8192);
    assert_eq!(second.size(), 8192);
    let third = Memory::with_size(0, &mut space).unwrap();
    assert_eq!(third.as_ptr(), 16_384);
    assert_eq!(third.size(), 0);
    assert_eq!(space.next, 16_384);
}

#[test]
fn reserving_fails_when_the_space_is_used_up() {
    let mut space = AddressSpace { next: u64::MAX - 4095 };
    assert!(Memory::with_size(1, &mut space).is_err());
    assert_eq!(space.next, u64::MAX - 4095);
    assert!(Memory::with_size(u64::MAX, &mut space).is_err());
    assert!(Memory::with_size(0, &mut space).is_ok());
    let mut space = AddressSpace { next: u64::MAX - 2 * 4096 + 1 };
    assert!(Memory::with_size(4096, &mut space).is_ok());
    assert_eq!(space.next, u64::MAX - 4095);
}

#[test]
fn committing_a_prefix() {
    let mut space = AddressSpace::new();
    let mut region = Memory::with_size(8192, &mut space).unwrap();
    assert_eq!(region.commit(100), Ok(()));
    assert_eq!(region.as_slice(), &[0u8; 100][..]);
    region.bytes[5] = 7;
    assert_eq!(region.commit(4097), Ok(()));
    assert_eq!(region.as_slice().len(), 4097);
    assert_eq!(region.as_slice()[5], 7);
    assert_eq!(region.as_slice()[4096], 0);
    assert_eq!(region.commit(8193), Err(()));
    assert_eq!(region.commit(4096), Err(()));
    assert_eq!(region.as_slice().len(), 4097);
    assert_eq!(region.commit(8192), Ok(()));
    assert_eq!(region.as_ptr(), 4096);
}
