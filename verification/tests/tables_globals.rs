use runtime_core::global::Global;
use runtime_core::store::Store;
use runtime_core::table::Table;
use runtime_core::types::{ElementType, GlobalDescriptor, TableDescriptor, Type, Value};
use runtime_core::vm::{Anyfunc, Ctx, Func, SigId};

fn table_desc(minimum: u32, maximum: Option<u32>) -> TableDescriptor {
    TableDescriptor { element: ElementType::Anyfunc, minimum, maximum }
}

#[test]
fn new_table_is_empty() {
    let mut store = Store::new();
    let table = Table::new(&mut store, table_desc(3, None)).unwrap();
    assert_eq!(table.descriptor(), table_desc(3, None));
    assert_eq!(table.size(&store), 3);
    for slot in 0..3 {
        assert_eq!(table.get(&store, slot), Some(Anyfunc::null()));
    }
    assert!(Anyfunc::null().func.is_null());
    assert_eq!(Anyfunc::null().sig_id, SigId(u32::MAX));
}

#[test]
fn table_grows_up_to_its_maximum() {
    let mut store = Store::new();
    let table = Table::new(&mut store, table_desc(2, Some(4))).unwrap();
    let entry = Anyfunc { func: Func(0x10), ctx: Ctx(0x20), sig_id: SigId(3) };
    assert_eq!(table.set(&mut store, 1, entry), Ok(()));
    assert_eq!(table.grow(&mut store, 2), Some(2));
    assert_eq!(table.size(&store), 4);
    assert_eq!(table.get(&store, 1), Some(entry));
    assert_eq!(table.get(&store, 3), Some(Anyfunc::null()));
    assert_eq!(table.grow(&mut store, 1), None);
    assert_eq!(table.size(&store), 4);
    assert_eq!(table.grow(&mut store, 0), Some(4));
    assert_eq!(store.tables[table.addr].local.count, 4);
}

#[test]
fn table_size_stays_a_32_bit_number() {
    let mut store = Store::new();
    let table = Table::new(&mut store, table_desc(1, None)).unwrap();
    assert_eq!(table.grow(&mut store, u32::MAX), None);
    assert_eq!(table.size(&store), 1);
}

#[test]
fn table_slots_out_of_bounds() {
    let mut store = Store::new();
    let table = Table::new(&mut store, table_desc(2, None)).unwrap();
    let entry = Anyfunc { func: Func(0x10), ctx: Ctx(0x20), sig_id: SigId(3) };
    assert_eq!(table.set(&mut store, 2, entry), Err(()));
    assert_eq!(table.get(&store, 2), None);
    assert_eq!(table.get(&store, 0), Some(Anyfunc::null()));
    assert_eq!(table.get(&store, 1), Some(Anyfunc::null()));
}

#[test]
fn globals_hold_their_values() {
    let mut store = Store::new();
    for value in [
        Value::I32(0),
        Value::I32(-1),
        Value::I32(i32::MIN),
        Value::I32(i32::MAX),
        Value::I64(-1),
        Value::I64(i64::MIN),
        Value::I64(i64::MAX),
        Value::F32((-0.0f32).to_bits()),
        Value::F32(f32::NAN.to_bits()),
        Value::F64(1.0e300f64.to_bits()),
        Value::F64(u64::MAX),
    ] {
        let global = Global::new(&mut store, value);
        assert_eq!(global.get(&store), value);
        assert_eq!(global.descriptor(), GlobalDescriptor { mutable: false, ty: value.ty() });
    }
}

#[test]
fn global_storage_is_widened() {
    let mut store = Store::new();
    let negative = Global::new(&mut store, Value::I32(-2));
    let bits = Global::new(&mut store, Value::F32(0xFFFF_FFFE));
    assert_eq!(store.globals[negative.addr].local.data, (-2i32) as u64);
    assert_eq!(store.globals[bits.addr].local.data, 0xFFFF_FFFE);
}

#[test]
fn immutable_globals_refuse_writes() {
    let mut store = Store::new();
    let global = Global::new(&mut store, Value::I32(42));
    assert_eq!(global.set(&mut store, Value::I32(43)), Err(()));
    assert_eq!(global.get(&store), Value::I32(42));
}

#[test]
fn mutable_globals_take_values_of_their_type() {
    let mut store = Store::new();
    let mut global = Global::new_mutable(&mut store, Value::I64(1));
    assert_eq!(global.descriptor(), GlobalDescriptor { mutable: true, ty: Type::I64 });
    assert_eq!(global.set(&mut store, Value::I64(-9)), Ok(()));
    assert_eq!(global.get(&store), Value::I64(-9));
    assert_eq!(global.set(&mut store, Value::I32(5)), Err(()));
    assert_eq!(global.set(&mut store, Value::F64(5)), Err(()));
    assert_eq!(global.get(&store), Value::I64(-9));
    assert_eq!(global.vm_local_global().0, global.addr);
}

#[test]
fn table_entries_all_at_once() {
    let mut store = Store::new();
    let table = Table::new(&mut store, table_desc(3, None)).unwrap();
    let other = Table::new(&mut store, table_desc(1, None)).unwrap();
    let entry = Anyfunc { func: Func(0x10), ctx: Ctx(0x20), sig_id: SigId(3) };
    let count = table.anyfunc_direct_access_mut(&mut store, |entries: &mut [Anyfunc]| {
        entries[2] = entry;
        entries.len()
    });
    assert_eq!(count, 3);
    assert_eq!(table.get(&store, 2), Some(entry));
    assert_eq!(table.get(&store, 1), Some(Anyfunc::null()));
    assert_eq!(table.size(&store), 3);
    assert_eq!(other.get(&store, 0), Some(Anyfunc::null()));
}
