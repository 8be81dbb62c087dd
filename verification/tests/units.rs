use runtime_core::le::{read_le, write_bytes, write_le};
use runtime_core::types::{
    local_or_import, ElementType, LocalOrImport, MemoryDescriptor, TableDescriptor, Type, Value,
    ValueError, ValueType,
};
use runtime_core::units::{Bytes, Pages, WASM_MAX_PAGES, WASM_PAGE_SIZE};

#[test]
fn pages_add_up_to_the_limit() {
    assert_eq!(Pages(1).checked_add(Pages(2)), Some(Pages(3)));
    assert_eq!(Pages(65_535).checked_add(Pages(1)), Some(Pages(65_536)));
    assert_eq!(Pages(65_536).checked_add(Pages(1)), None);
    assert_eq!(Pages(u32::MAX).checked_add(Pages(u32::MAX)), None);
    assert_eq!(WASM_MAX_PAGES, 65_536);
}

#[test]
fn pages_in_bytes() {
    assert_eq!(WASM_PAGE_SIZE, 65_536);
    assert_eq!(Pages(0).bytes(), Bytes(0));
    assert_eq!(Pages(3).bytes(), Bytes(196_608));
    assert!(Pages(3).is_addressable());
}

#[test]
fn little_endian_bytes() {
    let mut buffer = vec![0xAAu8; 8];
    write_le(&mut buffer, 2, 0x0102_0304, 4);
    assert_eq!(buffer, vec![0xAA, 0xAA, 4, 3, 2, 1, 0xAA, 0xAA]);
    assert_eq!(read_le(&buffer, 2, 4), 0x0102_0304);
    assert_eq!(read_le(&buffer, 0, 8), 0xAAAA_0102_0304_AAAA);
    assert_eq!(read_le(&buffer, 3, 0), 0);
    write_le(&mut buffer, 0, 0x1_23, 1);
    assert_eq!(buffer[0], 0x23);
    assert_eq!(buffer[1], 0xAA);
    write_bytes(&mut buffer, 6, &[7, 8]);
    assert_eq!(buffer, vec![0x23, 0xAA, 4, 3, 2, 1, 7, 8]);
}

#[test]
fn values_from_short_buffers() {
    let buffer = [1u8, 2, 3];
    assert_eq!(<u32 as ValueType>::from_le(&buffer, 0), Err(ValueError::BufferTooSmall));
    assert_eq!(<u16 as ValueType>::from_le(&buffer, 2), Err(ValueError::BufferTooSmall));
    assert_eq!(<u16 as ValueType>::from_le(&buffer, 1), Ok(0x0302));
    assert_eq!(<i8 as ValueType>::from_le(&buffer, usize::MAX), Err(ValueError::BufferTooSmall));
    assert_eq!(<u64 as ValueType>::byte_size(), 8);
    assert_eq!(<i16 as ValueType>::byte_size(), 2);
}

#[test]
fn values_agree_with_the_standard_encoding() {
    let mut buffer = [0u8; 8];
    (-2i32).into_le(&mut buffer, 0);
    assert_eq!(buffer[..4], (-2i32).to_le_bytes());
    i64::MIN.into_le(&mut buffer, 0);
    assert_eq!(buffer, i64::MIN.to_le_bytes());
    0xBEEFu16.into_le(&mut buffer, 3);
    assert_eq!(buffer[3..5], 0xBEEFu16.to_le_bytes());
    (-128i8).into_le(&mut buffer, 7);
    assert_eq!(buffer[7], 0x80);
    assert_eq!(<i8 as ValueType>::from_le(&buffer, 7), Ok(-128));
}

#[test]
fn value_types() {
    assert_eq!(Value::I32(-1).ty(), Type::I32);
    assert_eq!(Value::I64(1).ty(), Type::I64);
    assert_eq!(Value::F32(1.0f32.to_bits()).ty(), Type::F32);
    assert_eq!(Value::F64(1.0f64.to_bits()).ty(), Type::F64);
}

#[test]
fn combined_indices() {
    assert_eq!(local_or_import(0, 2), LocalOrImport::Import(0));
    assert_eq!(local_or_import(1, 2), LocalOrImport::Import(1));
    assert_eq!(local_or_import(2, 2), LocalOrImport::Local(0));
    assert_eq!(local_or_import(7, 0), LocalOrImport::Local(7));
}

fn memory(minimum: u32, maximum: Option<u32>, shared: bool) -> MemoryDescriptor {
    MemoryDescriptor { minimum: Pages(minimum), maximum: maximum.map(Pages), shared }
}

#[test]
fn memory_descriptors_that_fit() {
    let expected = memory(2, Some(10), false);
    assert!(expected.fits_in_imported(memory(2, Some(10), false)));
    assert!(expected.fits_in_imported(memory(5, Some(7), false)));
    assert!(!expected.fits_in_imported(memory(1, Some(10), false)));
    assert!(!expected.fits_in_imported(memory(2, Some(11), false)));
    assert!(!expected.fits_in_imported(memory(2, None, false)));
    assert!(!expected.fits_in_imported(memory(2, Some(10), true)));
    let open = memory(1, None, false);
    assert!(open.fits_in_imported(memory(1, None, false)));
    assert!(open.fits_in_imported(memory(3, Some(100_000), false)));
    assert!(!open.fits_in_imported(memory(0, None, false)));
}

fn table(minimum: u32, maximum: Option<u32>) -> TableDescriptor {
    TableDescriptor { element: ElementType::Anyfunc, minimum, maximum }
}

#[test]
fn table_descriptors_that_fit() {
    let expected = table(10, Some(20));
    assert!(expected.fits_in_imported(table(10, Some(20))));
    assert!(expected.fits_in_imported(table(15, Some(15))));
    assert!(!expected.fits_in_imported(table(9, Some(20))));
    assert!(!expected.fits_in_imported(table(10, Some(21))));
    assert!(!expected.fits_in_imported(table(10, None)));
    assert!(table(10, None).fits_in_imported(table(10, None)));
    assert!(table(10, None).fits_in_imported(table(12, Some(12))));
}
