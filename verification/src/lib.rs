//! Instance backing for a WebAssembly runtime: linear memories, tables,
//! globals and import linkage, with machine-checked contracts.
//!
//! Every memory, table and global lives in a [`store::Store`]. A
//! [`memory::Memory`], a [`table::Table`] or a [`global::Global`] is a handle
//! that names an item by its place in the store, so that the instance that
//! made an item and the instances that import it share it: what one writes
//! the others read.
//!
//! An instance is put together in two steps. [`backing::ImportBacking::new`]
//! links the imports of a module against what an embedder supplies and
//! reports every mismatch at once. [`backing::LocalBacking::new`] then makes
//! what the module defines and applies its data and element initializers;
//! [`backing::LocalBacking::can_instantiate`] tells beforehand whether that
//! can be done.
//!
//! The contracts speak of the store as a mathematical value, the
//! [`store::StoreView`]. The modules [`linking`] and [`instantiate`] say what
//! linking and instantiation give over such values, and hold the laws that
//! follow.

pub mod backing;
pub mod error;
pub mod export;
pub mod global;
pub mod import;
pub mod instantiate;
pub mod le;
pub mod linking;
pub mod memory;
pub mod module;
pub mod store;
pub mod sys;
pub mod table;
pub mod types;
pub mod units;
pub mod validate;
pub mod vm;
