//! Globals: typed cells that hold one value.

use vstd::prelude::*;
use crate::le::lemma_pow256_values;
use crate::store::{Store, StoreView};
use crate::types::{to_signed, to_unsigned, GlobalDescriptor, Type, Value};
use crate::vm;

verus! {

/// The 64 bits that store `value`: a 32-bit integer is sign-extended, a bit
/// pattern of 32 bits is zero-extended.
pub open spec fn encode_value(value: Value) -> u64 {
    match value {
        Value::I32(x) => to_unsigned(x as int, 8) as u64,
        Value::I64(x) => to_unsigned(x as int, 8) as u64,
        Value::F32(x) => x as u64,
        Value::F64(x) => x,
    }
}

/// The value of type `ty` that the 64 bits `data` store.
pub open spec fn decode_value(ty: Type, data: u64) -> Value {
    match ty {
        Type::I32 => Value::I32(to_signed((data % 0x1_0000_0000) as nat, 4) as i32),
        Type::I64 => Value::I64(to_signed(data as nat, 8) as i64),
        Type::F32 => Value::F32((data % 0x1_0000_0000) as u32),
        Type::F64 => Value::F64(data),
    }
}

/// Storing a value and reading it back at its own type gives the value.
pub proof fn lemma_decode_encode(value: Value)
    ensures
        decode_value(value.spec_ty(), encode_value(value)) == value,
{
    lemma_pow256_values();
}

fn encode(value: Value) -> (data: u64)
    ensures
        data == encode_value(value),
{
    proof {
        lemma_pow256_values();
    }
    match value {
        Value::I32(x) => if x >= 0 {
            x as u64
        } else {
            (x as i128 + 0x1_0000_0000_0000_0000) as u64
        },
        Value::I64(x) => if x >= 0 {
            x as u64
        } else {
            (x as i128 + 0x1_0000_0000_0000_0000) as u64
        },
        Value::F32(x) => x as u64,
        Value::F64(x) => x,
    }
}

fn decode(ty: Type, data: u64) -> (value: Value)
    ensures
        value == decode_value(ty, data),
{
    proof {
        lemma_pow256_values();
    }
    match ty {
        Type::I32 => {
            let low: u64 = data % 0x1_0000_0000;
            Value::I32(
                if low < 0x8000_0000 {
                    low as i32
                } else {
                    (low as i64 - 0x1_0000_0000) as i32
                },
            )
        },
        Type::I64 => Value::I64(
            if data < 0x8000_0000_0000_0000 {
                data as i64
            } else {
                (data as i128 - 0x1_0000_0000_0000_0000) as i64
            },
        ),
        Type::F32 => Value::F32((data % 0x1_0000_0000) as u32),
        Type::F64 => Value::F64(data),
    }
}

/// A global as it lives in the store.
#[derive(Clone, Copy, Debug, PartialEq, Eq, Structural)]
pub struct GlobalCell {
    pub desc: GlobalDescriptor,
    pub local: vm::LocalGlobal,
}

/// A global as a mathematical value.
pub struct GlobalView {
    pub desc: GlobalDescriptor,
    /// The stored 64 bits.
    pub data: u64,
}

impl GlobalView {
    /// The value that the global holds.
    pub open spec fn value(self) -> Value {
        decode_value(self.desc.ty, self.data)
    }
}

impl View for GlobalCell {
    type V = GlobalView;

    open spec fn view(&self) -> GlobalView {
        GlobalView { desc: self.desc, data: self.local.data }
    }
}

/// A handle to a global in the store.
#[derive(Clone, Copy, Debug, PartialEq, Eq, Structural)]
pub struct Global {
    pub desc: GlobalDescriptor,
    pub addr: usize,
}

impl Global {
    /// The handle names a global of `store`, of the descriptor that the
    /// handle carries.
    pub open spec fn valid_in(&self, store: StoreView) -> bool {
        self.addr < store.globals.len() && store.globals[self.addr as int].desc == self.desc
    }

    /// Tells whether the handle names a global of `store`, of the
    /// descriptor that the handle carries.
    pub fn is_valid_in(&self, store: &Store) -> (valid: bool)
        ensures
            valid == self.valid_in(store@),
    {
        self.addr < store.globals.len() && store.globals[self.addr].desc == self.desc
    }

    fn new_internal(store: &mut Store, value: Value, mutable: bool) -> (global: Global)
        ensures
            global.addr == old(store)@.globals.len(),
            global.desc == (GlobalDescriptor { mutable, ty: value.spec_ty() }),
            final(store)@ == (StoreView {
                globals: old(store)@.globals.push(
                    GlobalView { desc: global.desc, data: encode_value(value) },
                ),
                ..old(store)@
            }),
            old(store).wf() ==> final(store).wf(),
    {
        let desc = GlobalDescriptor { mutable, ty: value.ty() };
        let addr = store.globals.len();
        store.globals.push(GlobalCell { desc, local: vm::LocalGlobal { data: encode(value) } });
        assert(store@.globals =~= old(store)@.globals.push(
            GlobalView { desc, data: encode_value(value) },
        ));
        Global { desc, addr }
    }

    /// Adds to the store a global that holds `value` and cannot be written.
    pub fn new(store: &mut Store, value: Value) -> (global: Global)
        ensures
            global.addr == old(store)@.globals.len(),
            global.desc == (GlobalDescriptor { mutable: false, ty: value.spec_ty() }),
            global.valid_in(final(store)@),
            final(store)@ == (StoreView {
                globals: old(store)@.globals.push(
                    GlobalView { desc: global.desc, data: encode_value(value) },
                ),
                ..old(store)@
            }),
            final(store)@.globals[global.addr as int].value() == value,
            old(store).wf() ==> final(store).wf(),
    {
        proof {
            lemma_decode_encode(value);
        }
        Self::new_internal(store, value, false)
    }

    /// Adds to the store a global that holds `value` and can be written.
    pub fn new_mutable(store: &mut Store, value: Value) -> (global: Global)
        ensures
            global.addr == old(store)@.globals.len(),
            global.desc == (GlobalDescriptor { mutable: true, ty: value.spec_ty() }),
            global.valid_in(final(store)@),
            final(store)@ == (StoreView {
                globals: old(store)@.globals.push(
                    GlobalView { desc: global.desc, data: encode_value(value) },
                ),
                ..old(store)@
            }),
            final(store)@.globals[global.addr as int].value() == value,
            old(store).wf() ==> final(store).wf(),
    {
        proof {
            lemma_decode_encode(value);
        }
        Self::new_internal(store, value, true)
    }

    /// The descriptor of the global.
    pub fn descriptor(&self) -> (desc: GlobalDescriptor)
        ensures
            desc == self.desc,
    {
        self.desc
    }

    /// The value that the global holds.
    pub fn get(&self, store: &Store) -> (value: Value)
        requires
            self.valid_in(store@),
        ensures
            value == store@.globals[self.addr as int].value(),
    {
        decode(self.desc.ty, store.globals[self.addr].local.data)
    }

    /// Writes `value` to the global. The write is refused, and nothing
    /// changes, when the global cannot be written or `value` is not of its
    /// type.
    pub fn set(&self, store: &mut Store, value: Value) -> (written: Result<(), ()>)
        requires
            self.valid_in(old(store)@),
        ensures
            written.is_ok() == (self.desc.mutable && self.desc.ty == value.spec_ty()),
            written.is_ok() ==> final(store)@ == old(store)@.with_global(
                self.addr as int,
                GlobalView { desc: self.desc, data: encode_value(value) },
            ),
            written.is_ok() ==> final(store)@.globals[self.addr as int].value() == value,
            written.is_err() ==> final(store)@ == old(store)@,
            old(store).wf() ==> final(store).wf(),
    {
        if !self.desc.mutable || self.desc.ty != value.ty() {
            return Err(());
        }
        proof {
            lemma_decode_encode(value);
        }
        store.globals[self.addr].local.data = encode(value);
        assert(store@.globals =~= old(store)@.globals.update(
            self.addr as int,
            GlobalView { desc: self.desc, data: encode_value(value) },
        ));
        Ok(())
    }

    /// Where generated code finds the storage of the global.
    pub fn vm_local_global(&mut self) -> (place: vm::LocalGlobalRef)
        ensures
            place.0 == old(self).addr,
            *final(self) == *old(self),
    {
        vm::LocalGlobalRef(self.addr)
    }
}

} // verus!
