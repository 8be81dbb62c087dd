//! Value types, descriptors of memories, tables and globals, function
//! signatures, and the index spaces of a module.

use vstd::prelude::*;
use crate::le::{holds, le_bytes, le_value, pow256, read_le, splice, write_le};
use crate::le::{lemma_le_value_bound, lemma_le_value_of_bytes, lemma_pow256_values};
use crate::memory::MemoryType;
use crate::units::Pages;

verus! {

/// The type of a value.
#[derive(Clone, Copy, Debug, PartialEq, Eq, Structural)]
pub enum Type {
    I32,
    I64,
    F32,
    F64,
}

/// A value of one of the four value types. The two binary
/// fractional types are carried as their IEEE 754 bit patterns.
#[derive(Clone, Copy, Debug, PartialEq, Eq, Structural)]
pub enum Value {
    I32(i32),
    I64(i64),
    F32(u32),
    F64(u64),
}

impl Value {
    pub open spec fn spec_ty(&self) -> Type {
        match self {
            Value::I32(_) => Type::I32,
            Value::I64(_) => Type::I64,
            Value::F32(_) => Type::F32,
            Value::F64(_) => Type::F64,
        }
    }

    /// The type of this value.
    #[verifier::when_used_as_spec(spec_ty)]
    pub fn ty(&self) -> (ty: Type)
        ensures
            ty == self.spec_ty(),
    {
        match self {
            Value::I32(_) => Type::I32,
            Value::I64(_) => Type::I64,
            Value::F32(_) => Type::F32,
            Value::F64(_) => Type::F64,
        }
    }
}

/// The type of the entries of a table.
#[derive(Clone, Copy, Debug, PartialEq, Eq, Structural)]
pub enum ElementType {
    /// Any function.
    Anyfunc,
}

/// What a module declares of a table.
#[derive(Clone, Copy, Debug, PartialEq, Eq, Structural)]
pub struct TableDescriptor {
    pub element: ElementType,
    /// Number of entries at creation.
    pub minimum: u32,
    /// Largest number of entries the table may grow to, if limited.
    pub maximum: Option<u32>,
}

impl TableDescriptor {
    /// Whether a table that was made from `imported` can stand where this
    /// descriptor is expected.
    pub open spec fn spec_fits_in_imported(&self, imported: TableDescriptor) -> bool {
        &&& imported.minimum >= self.minimum
        &&& self.maximum matches Some(limit) ==> (imported.maximum matches Some(supplied)
            && supplied <= limit)
        &&& self.element == imported.element
    }

    /// Whether a table that was made from `imported` can stand where this
    /// descriptor is expected: it starts at least as large, it is limited at
    /// least as tightly where a limit is asked for, and it holds the same
    /// kind of entries.
    #[verifier::when_used_as_spec(spec_fits_in_imported)]
    pub fn fits_in_imported(&self, imported: TableDescriptor) -> (fits: bool)
        ensures
            fits == self.spec_fits_in_imported(imported),
    {
        let limited = match self.maximum {
            Some(limit) => match imported.maximum {
                Some(supplied) => supplied <= limit,
                None => false,
            },
            None => true,
        };
        imported.minimum >= self.minimum && limited && self.element == imported.element
    }
}

/// What a module declares of a global.
#[derive(Clone, Copy, Debug, PartialEq, Eq, Structural)]
pub struct GlobalDescriptor {
    pub mutable: bool,
    pub ty: Type,
}

/// What a module declares of a linear memory.
#[derive(Clone, Copy, Debug, PartialEq, Eq, Structural)]
pub struct MemoryDescriptor {
    /// Size at creation.
    pub minimum: Pages,
    /// Largest size the memory may grow to, if limited.
    pub maximum: Option<Pages>,
    /// Whether several threads may use the memory at once.
    pub shared: bool,
}

impl MemoryDescriptor {
    pub open spec fn spec_memory_type(self) -> MemoryType {
        if self.maximum.is_none() {
            MemoryType::Dynamic
        } else if self.shared {
            MemoryType::SharedStatic
        } else {
            MemoryType::Static
        }
    }

    /// How a memory of this descriptor is laid out: reserved once where a
    /// maximum is declared, reallocated on growth where none is.
    #[verifier::when_used_as_spec(spec_memory_type)]
    pub fn memory_type(self) -> (kind: MemoryType)
        requires
            self.shared ==> self.maximum.is_some(),
        ensures
            kind == self.spec_memory_type(),
    {
        match self.maximum {
            Some(_) => if self.shared {
                MemoryType::SharedStatic
            } else {
                MemoryType::Static
            },
            None => MemoryType::Dynamic,
        }
    }

    /// Whether a memory that was made from `imported` can stand where this
    /// descriptor is expected.
    pub open spec fn spec_fits_in_imported(&self, imported: MemoryDescriptor) -> bool {
        &&& imported.minimum.0 >= self.minimum.0
        &&& self.maximum matches Some(limit) ==> (imported.maximum matches Some(supplied)
            && supplied.0 <= limit.0)
        &&& self.shared == imported.shared
    }

    /// Whether a memory that was made from `imported` can stand where this
    /// descriptor is expected: it starts at least as large, it is limited at
    /// least as tightly where a limit is asked for, and it is shared exactly
    /// when that is expected.
    #[verifier::when_used_as_spec(spec_fits_in_imported)]
    pub fn fits_in_imported(&self, imported: MemoryDescriptor) -> (fits: bool)
        ensures
            fits == self.spec_fits_in_imported(imported),
    {
        let limited = match self.maximum {
            Some(limit) => match imported.maximum {
                Some(supplied) => supplied.0 <= limit.0,
                None => false,
            },
            None => true,
        };
        imported.minimum.0 >= self.minimum.0 && limited && self.shared == imported.shared
    }
}

/// The signature of a function, as a mathematical value.
pub struct FuncSigView {
    pub params: Seq<Type>,
    pub results: Seq<Type>,
}

/// The signature of a function: the types it takes and the types it gives.
#[derive(Debug, PartialEq, Eq)]
pub struct FuncSig {
    pub params: Vec<Type>,
    pub results: Vec<Type>,
}

impl View for FuncSig {
    type V = FuncSigView;

    open spec fn view(&self) -> FuncSigView {
        FuncSigView { params: self.params@, results: self.results@ }
    }
}

/// Whether two lists of types hold the same types in the same order.
fn same_types(a: &Vec<Type>, b: &Vec<Type>) -> (same: bool)
    ensures
        same == (a@ == b@),
{
    if a.len() != b.len() {
        return false;
    }
    let mut i: usize = 0;
    while i < a.len()
        invariant
            i <= a.len(),
            a.len() == b.len(),
            a@.subrange(0, i as int) == b@.subrange(0, i as int),
        decreases a.len() - i,
    {
        if a[i] != b[i] {
            return false;
        }
        i = i + 1;
    }
    assert(a@ =~= a@.subrange(0, a.len() as int));
    assert(b@ =~= b@.subrange(0, b.len() as int));
    true
}

impl FuncSig {
    /// Whether the two signatures take the same types and give the same
    /// types, each in the same order.
    pub fn same_as(&self, other: &FuncSig) -> (same: bool)
        ensures
            same == (self@ == other@),
    {
        same_types(&self.params, &other.params) && same_types(&self.results, &other.results)
    }

    /// A copy of this signature.
    pub fn duplicate(&self) -> (copy: FuncSig)
        ensures
            copy@ == self@,
    {
        let params = self.params.clone();
        let results = self.results.clone();
        FuncSig { params, results }
    }
}

/// How the offset of a data or element segment, or the first value of a
/// global, is given.
#[derive(Clone, Copy, Debug, PartialEq, Eq, Structural)]
pub enum Initializer {
    /// A constant.
    Const(Value),
    /// The value that an imported global holds at instantiation.
    GetGlobal(ImportedGlobalIndex),
}

/// A global of a module: its descriptor and its first value.
#[derive(Clone, Copy, Debug, PartialEq, Eq, Structural)]
pub struct GlobalInit {
    pub desc: GlobalDescriptor,
    pub init: Initializer,
}

/// Either an item that the module defines or one that it imports.
#[derive(Debug, PartialEq, Eq, Structural)]
pub enum LocalOrImport<L, I> {
    Local(L),
    Import(I),
}

/// Index of a function among all functions of a module, imported ones first.
#[derive(Clone, Copy, Debug, PartialEq, Eq, Structural)]
pub struct FuncIndex(pub u32);

/// Index of a function among those that the module defines.
#[derive(Clone, Copy, Debug, PartialEq, Eq, Structural)]
pub struct LocalFuncIndex(pub u32);

/// Index of a function among those that the module imports.
#[derive(Clone, Copy, Debug, PartialEq, Eq, Structural)]
pub struct ImportedFuncIndex(pub u32);

/// Index of a memory among all memories of a module, imported ones first.
#[derive(Clone, Copy, Debug, PartialEq, Eq, Structural)]
pub struct MemoryIndex(pub u32);

/// Index of a memory among those that the module defines.
#[derive(Clone, Copy, Debug, PartialEq, Eq, Structural)]
pub struct LocalMemoryIndex(pub u32);

/// Index of a memory among those that the module imports.
#[derive(Clone, Copy, Debug, PartialEq, Eq, Structural)]
pub struct ImportedMemoryIndex(pub u32);

/// Index of a table among all tables of a module, imported ones first.
#[derive(Clone, Copy, Debug, PartialEq, Eq, Structural)]
pub struct TableIndex(pub u32);

/// Index of a table among those that the module defines.
#[derive(Clone, Copy, Debug, PartialEq, Eq, Structural)]
pub struct LocalTableIndex(pub u32);

/// Index of a table among those that the module imports.
#[derive(Clone, Copy, Debug, PartialEq, Eq, Structural)]
pub struct ImportedTableIndex(pub u32);

/// Index of a global among all globals of a module, imported ones first.
#[derive(Clone, Copy, Debug, PartialEq, Eq, Structural)]
pub struct GlobalIndex(pub u32);

/// Index of a global among those that the module defines.
#[derive(Clone, Copy, Debug, PartialEq, Eq, Structural)]
pub struct LocalGlobalIndex(pub u32);

/// Index of a global among those that the module imports.
#[derive(Clone, Copy, Debug, PartialEq, Eq, Structural)]
pub struct ImportedGlobalIndex(pub u32);

/// Index of a signature in the signature registry of a module.
#[derive(Clone, Copy, Debug, PartialEq, Eq, Structural)]
pub struct SigIndex(pub u32);

/// Where a combined index points, given how many items come from imports:
/// the imported items take the low indices, the local ones follow.
pub open spec fn split_index(index: u32, imported: nat) -> LocalOrImport<u32, u32> {
    if index < imported {
        LocalOrImport::Import(index)
    } else {
        LocalOrImport::Local((index - imported) as u32)
    }
}

/// Computes [`split_index`].
pub fn local_or_import(index: u32, imported: usize) -> (place: LocalOrImport<u32, u32>)
    ensures
        place == split_index(index, imported as nat),
{
    if (index as u64) < (imported as u64) {
        LocalOrImport::Import(index)
    } else {
        LocalOrImport::Local(index - imported as u32)
    }
}

/// The unsigned number with the same `width` bytes as `x` in two's
/// complement.
pub open spec fn to_unsigned(x: int, width: nat) -> nat {
    if x >= 0 {
        x as nat
    } else {
        (x + pow256(width)) as nat
    }
}

/// The signed number with the same `width` bytes as `u` in two's complement.
pub open spec fn to_signed(u: nat, width: nat) -> int {
    if 2 * u < pow256(width) {
        u as int
    } else {
        u - pow256(width)
    }
}

/// Why a value could not be read from a buffer.
#[derive(Clone, Copy, Debug, PartialEq, Eq, Structural)]
pub enum ValueError {
    /// The buffer ends before the value does.
    BufferTooSmall,
}

/// A number that linear memory can hold, in little-endian byte order.
pub trait ValueType: Copy + Sized {
    /// Number of bytes of a value of this type.
    spec fn size() -> nat;

    /// The bytes of `self`, least significant first.
    spec fn le_encoding(self) -> Seq<u8>;

    /// The value that `bytes` spell.
    spec fn le_decoding(bytes: Seq<u8>) -> Self;

    /// A value takes between one and eight bytes.
    proof fn lemma_size()
        ensures
            1 <= Self::size() <= 8,
    ;

    /// A value has as many bytes as its type says, and decoding them gives
    /// the value back.
    proof fn lemma_encoding(self)
        ensures
            self.le_encoding().len() == Self::size(),
            Self::le_decoding(self.le_encoding()) == self,
    ;

    /// Number of bytes of a value of this type.
    fn byte_size() -> (n: usize)
        ensures
            n == Self::size(),
    ;

    /// Writes the bytes of `self` into `buffer` from position `offset` on,
    /// and touches nothing else.
    fn into_le(self, buffer: &mut [u8], offset: usize)
        requires
            offset + Self::size() <= old(buffer).len(),
        ensures
            final(buffer)@ == splice(old(buffer)@, offset as int, self.le_encoding()),
    ;

    /// Reads a value from the bytes of `buffer` that start at `offset`, where
    /// the buffer holds them all.
    fn from_le(buffer: &[u8], offset: usize) -> (value: Result<Self, ValueError>)
        ensures
            offset + Self::size() <= buffer.len() ==> value == Ok::<Self, ValueError>(
                Self::le_decoding(buffer@.subrange(offset as int, offset + Self::size())),
            ),
            offset + Self::size() > buffer.len() ==> value == Err::<Self, ValueError>(
                ValueError::BufferTooSmall,
            ),
    ;
}

impl ValueType for u8 {
    open spec fn size() -> nat {
        1
    }

    open spec fn le_encoding(self) -> Seq<u8> {
        le_bytes(self as nat, 1)
    }

    open spec fn le_decoding(bytes: Seq<u8>) -> u8 {
        le_value(bytes) as u8
    }

    proof fn lemma_size() {
    }

    proof fn lemma_encoding(self) {
        lemma_pow256_values();
        crate::le::lemma_le_bytes_len(self as nat, 1);
        lemma_le_value_of_bytes(self as nat, 1);
    }

    fn byte_size() -> (n: usize) {
        1
    }

    fn into_le(self, buffer: &mut [u8], offset: usize) {
        write_le(buffer, offset, self as u64, 1);
    }

    fn from_le(buffer: &[u8], offset: usize) -> (value: Result<Self, ValueError>) {
        if !holds(buffer.len(), offset, 1) {
            return Err(ValueError::BufferTooSmall);
        }
        let raw = read_le(buffer, offset, 1);
        Ok(raw as u8)
    }
}

impl ValueType for i8 {
    open spec fn size() -> nat {
        1
    }

    open spec fn le_encoding(self) -> Seq<u8> {
        le_bytes(to_unsigned(self as int, 1), 1)
    }

    open spec fn le_decoding(bytes: Seq<u8>) -> i8 {
        to_signed(le_value(bytes), 1) as i8
    }

    proof fn lemma_size() {
    }

    proof fn lemma_encoding(self) {
        lemma_pow256_values();
        crate::le::lemma_le_bytes_len(to_unsigned(self as int, 1), 1);
        lemma_le_value_of_bytes(to_unsigned(self as int, 1), 1);
    }

    fn byte_size() -> (n: usize) {
        1
    }

    fn into_le(self, buffer: &mut [u8], offset: usize) {
        proof {
            lemma_pow256_values();
        }
        let raw: u64 = if self >= 0 {
            self as u64
        } else {
            (self as i64 + 0x100) as u64
        };
        write_le(buffer, offset, raw, 1);
    }

    fn from_le(buffer: &[u8], offset: usize) -> (value: Result<Self, ValueError>) {
        if !holds(buffer.len(), offset, 1) {
            return Err(ValueError::BufferTooSmall);
        }
        let raw = read_le(buffer, offset, 1);
        proof {
            lemma_pow256_values();
            lemma_le_value_bound(buffer@.subrange(offset as int, offset + 1));
        }
        Ok(if raw < 0x80 {
            raw as i8
        } else {
            (raw as i64 - 0x100) as i8
        })
    }
}

impl ValueType for u16 {
    open spec fn size() -> nat {
        2
    }

    open spec fn le_encoding(self) -> Seq<u8> {
        le_bytes(self as nat, 2)
    }

    open spec fn le_decoding(bytes: Seq<u8>) -> u16 {
        le_value(bytes) as u16
    }

    proof fn lemma_size() {
    }

    proof fn lemma_encoding(self) {
        lemma_pow256_values();
        crate::le::lemma_le_bytes_len(self as nat, 2);
        lemma_le_value_of_bytes(self as nat, 2);
    }

    fn byte_size() -> (n: usize) {
        2
    }

    fn into_le(self, buffer: &mut [u8], offset: usize) {
        write_le(buffer, offset, self as u64, 2);
    }

    fn from_le(buffer: &[u8], offset: usize) -> (value: Result<Self, ValueError>) {
        if !holds(buffer.len(), offset, 2) {
            return Err(ValueError::BufferTooSmall);
        }
        let raw = read_le(buffer, offset, 2);
        Ok(raw as u16)
    }
}

impl ValueType for i16 {
    open spec fn size() -> nat {
        2
    }

    open spec fn le_encoding(self) -> Seq<u8> {
        le_bytes(to_unsigned(self as int, 2), 2)
    }

    open spec fn le_decoding(bytes: Seq<u8>) -> i16 {
        to_signed(le_value(bytes), 2) as i16
    }

    proof fn lemma_size() {
    }

    proof fn lemma_encoding(self) {
        lemma_pow256_values();
        crate::le::lemma_le_bytes_len(to_unsigned(self as int, 2), 2);
        lemma_le_value_of_bytes(to_unsigned(self as int, 2), 2);
    }

    fn byte_size() -> (n: usize) {
        2
    }

    fn into_le(self, buffer: &mut [u8], offset: usize) {
        proof {
            lemma_pow256_values();
        }
        let raw: u64 = if self >= 0 {
            self as u64
        } else {
            (self as i64 + 0x1_0000) as u64
        };
        write_le(buffer, offset, raw, 2);
    }

    fn from_le(buffer: &[u8], offset: usize) -> (value: Result<Self, ValueError>) {
        if !holds(buffer.len(), offset, 2) {
            return Err(ValueError::BufferTooSmall);
        }
        let raw = read_le(buffer, offset, 2);
        proof {
            lemma_pow256_values();
            lemma_le_value_bound(buffer@.subrange(offset as int, offset + 2));
        }
        Ok(if raw < 0x8000 {
            raw as i16
        } else {
            (raw as i64 - 0x1_0000) as i16
        })
    }
}

impl ValueType for u32 {
    open spec fn size() -> nat {
        4
    }

    open spec fn le_encoding(self) -> Seq<u8> {
        le_bytes(self as nat, 4)
    }

    open spec fn le_decoding(bytes: Seq<u8>) -> u32 {
        le_value(bytes) as u32
    }

    proof fn lemma_size() {
    }

    proof fn lemma_encoding(self) {
        lemma_pow256_values();
        crate::le::lemma_le_bytes_len(self as nat, 4);
        lemma_le_value_of_bytes(self as nat, 4);
    }

    fn byte_size() -> (n: usize) {
        4
    }

    fn into_le(self, buffer: &mut [u8], offset: usize) {
        write_le(buffer, offset, self as u64, 4);
    }

    fn from_le(buffer: &[u8], offset: usize) -> (value: Result<Self, ValueError>) {
        if !holds(buffer.len(), offset, 4) {
            return Err(ValueError::BufferTooSmall);
        }
        let raw = read_le(buffer, offset, 4);
        Ok(raw as u32)
    }
}

impl ValueType for i32 {
    open spec fn size() -> nat {
        4
    }

    open spec fn le_encoding(self) -> Seq<u8> {
        le_bytes(to_unsigned(self as int, 4), 4)
    }

    open spec fn le_decoding(bytes: Seq<u8>) -> i32 {
        to_signed(le_value(bytes), 4) as i32
    }

    proof fn lemma_size() {
    }

    proof fn lemma_encoding(self) {
        lemma_pow256_values();
        crate::le::lemma_le_bytes_len(to_unsigned(self as int, 4), 4);
        lemma_le_value_of_bytes(to_unsigned(self as int, 4), 4);
    }

    fn byte_size() -> (n: usize) {
        4
    }

    fn into_le(self, buffer: &mut [u8], offset: usize) {
        proof {
            lemma_pow256_values();
        }
        let raw: u64 = if self >= 0 {
            self as u64
        } else {
            (self as i64 + 0x1_0000_0000) as u64
        };
        write_le(buffer, offset, raw, 4);
    }

    fn from_le(buffer: &[u8], offset: usize) -> (value: Result<Self, ValueError>) {
        if !holds(buffer.len(), offset, 4) {
            return Err(ValueError::BufferTooSmall);
        }
        let raw = read_le(buffer, offset, 4);
        proof {
            lemma_pow256_values();
            lemma_le_value_bound(buffer@.subrange(offset as int, offset + 4));
        }
        Ok(if raw < 0x8000_0000 {
            raw as i32
        } else {
            (raw as i64 - 0x1_0000_0000) as i32
        })
    }
}

impl ValueType for u64 {
    open spec fn size() -> nat {
        8
    }

    open spec fn le_encoding(self) -> Seq<u8> {
        le_bytes(self as nat, 8)
    }

    open spec fn le_decoding(bytes: Seq<u8>) -> u64 {
        le_value(bytes) as u64
    }

    proof fn lemma_size() {
    }

    proof fn lemma_encoding(self) {
        lemma_pow256_values();
        crate::le::lemma_le_bytes_len(self as nat, 8);
        lemma_le_value_of_bytes(self as nat, 8);
    }

    fn byte_size() -> (n: usize) {
        8
    }

    fn into_le(self, buffer: &mut [u8], offset: usize) {
        write_le(buffer, offset, self, 8);
    }

    fn from_le(buffer: &[u8], offset: usize) -> (value: Result<Self, ValueError>) {
        if !holds(buffer.len(), offset, 8) {
            return Err(ValueError::BufferTooSmall);
        }
        let raw = read_le(buffer, offset, 8);
        Ok(raw)
    }
}

impl ValueType for i64 {
    open spec fn size() -> nat {
        8
    }

    open spec fn le_encoding(self) -> Seq<u8> {
        le_bytes(to_unsigned(self as int, 8), 8)
    }

    open spec fn le_decoding(bytes: Seq<u8>) -> i64 {
        to_signed(le_value(bytes), 8) as i64
    }

    proof fn lemma_size() {
    }

    proof fn lemma_encoding(self) {
        lemma_pow256_values();
        crate::le::lemma_le_bytes_len(to_unsigned(self as int, 8), 8);
        lemma_le_value_of_bytes(to_unsigned(self as int, 8), 8);
    }

    fn byte_size() -> (n: usize) {
        8
    }

    fn into_le(self, buffer: &mut [u8], offset: usize) {
        proof {
            lemma_pow256_values();
        }
        let raw: u64 = if self >= 0 {
            self as u64
        } else {
            (self as i128 + 0x1_0000_0000_0000_0000) as u64
        };
        write_le(buffer, offset, raw, 8);
    }

    fn from_le(buffer: &[u8], offset: usize) -> (value: Result<Self, ValueError>) {
        if !holds(buffer.len(), offset, 8) {
            return Err(ValueError::BufferTooSmall);
        }
        let raw = read_le(buffer, offset, 8);
        proof {
            lemma_pow256_values();
        }
        Ok(if raw < 0x8000_0000_0000_0000 {
            raw as i64
        } else {
            (raw as i128 - 0x1_0000_0000_0000_0000) as i64
        })
    }
}

} // verus!
