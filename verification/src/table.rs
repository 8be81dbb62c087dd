//! Tables of entries through which functions are called indirectly.

use vstd::prelude::*;
use crate::error::CreationError;
use crate::store::{Store, StoreView};
use crate::types::TableDescriptor;
use crate::vm;

verus! {

/// `n` empty table entries.
pub open spec fn empty_entries(n: nat) -> Seq<vm::Anyfunc> {
    Seq::new(n, |i: int| vm::Anyfunc::spec_null())
}

/// Whether a table of `size` entries, limited to `max` if that is set, may
/// grow by `delta` entries.
pub open spec fn table_growth_allowed(size: nat, max: Option<u32>, delta: u32) -> bool {
    &&& size + delta <= u32::MAX
    &&& max matches Some(limit) ==> size + delta <= limit
}

/// The entries of a table that holds any function.
#[derive(Debug)]
pub struct AnyfuncTable {
    pub backing: Vec<vm::Anyfunc>,
    pub max: Option<u32>,
}

impl AnyfuncTable {
    /// A table of the minimum size of `desc`, all entries empty; `local`
    /// gets the number of entries.
    pub fn new(desc: TableDescriptor, local: &mut vm::LocalTable) -> (table: AnyfuncTable)
        ensures
            table.backing@ == empty_entries(desc.minimum as nat),
            table.max == desc.maximum,
            final(local).count == desc.minimum,
    {
        let backing = vec![vm::Anyfunc::null(); desc.minimum as usize];
        local.count = backing.len();
        AnyfuncTable { backing, max: desc.maximum }
    }

    /// Number of entries.
    pub fn current_size(&self) -> (size: u32)
        requires
            self.backing.len() <= u32::MAX,
        ensures
            size == self.backing.len(),
    {
        self.backing.len() as u32
    }

    /// Appends `delta` empty entries and gives the number of entries before.
    /// Where the table may not grow so far, the result is `None` and
    /// nothing changes.
    pub fn grow(&mut self, delta: u32, local: &mut vm::LocalTable) -> (previous: Option<u32>)
        requires
            old(self).backing.len() <= u32::MAX,
        ensures
            final(self).max == old(self).max,
            previous.is_some() == table_growth_allowed(
                old(self).backing@.len(),
                old(self).max,
                delta,
            ),
            previous matches Some(size) ==> {
                &&& size == old(self).backing.len()
                &&& final(self).backing@ == old(self).backing@ + empty_entries(delta as nat)
                &&& final(local).count == final(self).backing.len()
            },
            previous.is_none() ==> *final(self) == *old(self) && *final(local) == *old(local),
    {
        let starting_len = self.backing.len() as u32;
        let new_len = match starting_len.checked_add(delta) {
            Some(len) => len,
            None => {
                return None;
            },
        };
        if let Some(max) = self.max {
            if new_len > max {
                return None;
            }
        }
        self.backing.resize(new_len as usize, vm::Anyfunc::null());
        local.count = self.backing.len();
        Some(starting_len)
    }
}

/// A table as it lives in the store.
#[derive(Debug)]
pub struct TableCell {
    pub desc: TableDescriptor,
    pub storage: AnyfuncTable,
    pub local: vm::LocalTable,
}

/// A table as a mathematical value.
pub struct TableView {
    pub desc: TableDescriptor,
    pub elements: Seq<vm::Anyfunc>,
}

impl View for TableCell {
    type V = TableView;

    open spec fn view(&self) -> TableView {
        TableView { desc: self.desc, elements: self.storage.backing@ }
    }
}

impl TableCell {
    /// The table is limited as its descriptor says, it is never smaller than
    /// the minimum, it exceeds the maximum only where the minimum does,
    /// generated code sees its true size, and that size is a 32-bit number.
    pub open spec fn wf(&self) -> bool {
        &&& self.storage.max == self.desc.maximum
        &&& self.desc.minimum <= self.storage.backing.len()
        &&& self.desc.maximum matches Some(limit) ==> (self.storage.backing.len() <= limit
            || self.storage.backing.len() == self.desc.minimum)
        &&& self.local.count == self.storage.backing.len()
        &&& self.storage.backing.len() <= u32::MAX
    }
}

/// A handle to a table in the store.
#[derive(Clone, Copy, Debug, PartialEq, Eq, Structural)]
pub struct Table {
    pub desc: TableDescriptor,
    pub addr: usize,
}

impl Table {
    /// The handle names a table of `store`, of the descriptor that the
    /// handle carries.
    pub open spec fn valid_in(&self, store: StoreView) -> bool {
        self.addr < store.tables.len() && store.tables[self.addr as int].desc == self.desc
    }

    /// Tells whether the handle names a table of `store`, of the descriptor
    /// that the handle carries.
    pub fn is_valid_in(&self, store: &Store) -> (valid: bool)
        ensures
            valid == self.valid_in(store@),
    {
        self.addr < store.tables.len() && store.tables[self.addr].desc == self.desc
    }

    /// Adds to the store a table of the minimum size of `desc`, all entries
    /// empty. The creation of a table never fails.
    pub fn new(store: &mut Store, desc: TableDescriptor) -> (made: Result<Table, CreationError>)
        requires
            old(store).wf(),
        ensures
            final(store).wf(),
            made matches Ok(table) && table == (Table {
                desc,
                addr: old(store)@.tables.len() as usize,
            }) && table.valid_in(final(store)@),
            final(store)@ == (StoreView {
                tables: old(store)@.tables.push(
                    TableView { desc, elements: empty_entries(desc.minimum as nat) },
                ),
                ..old(store)@
            }),
    {
        let mut local = vm::LocalTable { count: 0 };
        let storage = AnyfuncTable::new(desc, &mut local);
        let addr = store.tables.len();
        store.tables.push(TableCell { desc, storage, local });
        assert(store@.tables =~= old(store)@.tables.push(
            TableView { desc, elements: empty_entries(desc.minimum as nat) },
        ));
        Ok(Table { desc, addr })
    }

    /// The descriptor that the table was made from.
    pub fn descriptor(&self) -> (desc: TableDescriptor)
        ensures
            desc == self.desc,
    {
        self.desc
    }

    /// Number of entries.
    pub fn size(&self, store: &Store) -> (size: u32)
        requires
            store.wf(),
            self.valid_in(store@),
        ensures
            size == store@.tables[self.addr as int].elements.len(),
    {
        store.tables[self.addr].storage.current_size()
    }

    /// Appends `delta` empty entries and gives the number of entries before.
    /// Where the maximum of the table, or the range of a 32-bit number,
    /// does not allow it, the result is `None` and nothing changes.
    pub fn grow(&self, store: &mut Store, delta: u32) -> (previous: Option<u32>)
        requires
            old(store).wf(),
            self.valid_in(old(store)@),
        ensures
            final(store).wf(),
            previous.is_some() == table_growth_allowed(
                old(store)@.tables[self.addr as int].elements.len(),
                self.desc.maximum,
                delta,
            ),
            previous matches Some(size) ==> {
                &&& size == old(store)@.tables[self.addr as int].elements.len()
                &&& final(store)@ == old(store)@.with_table(
                    self.addr as int,
                    TableView {
                        desc: self.desc,
                        elements: old(store)@.tables[self.addr as int].elements + empty_entries(
                            delta as nat,
                        ),
                    },
                )
            },
            previous.is_none() ==> final(store)@ == old(store)@,
    {
        let cell = &mut store.tables[self.addr];
        let previous = cell.storage.grow(delta, &mut cell.local);
        proof {
            if previous.is_some() {
                assert(store@.tables =~= old(store)@.tables.update(
                    self.addr as int,
                    TableView {
                        desc: self.desc,
                        elements: old(store)@.tables[self.addr as int].elements + empty_entries(
                            delta as nat,
                        ),
                    },
                ));
            } else {
                assert(store@.tables =~= old(store)@.tables);
            }
        }
        previous
    }

    /// The entry at `index`, or `None` where the table has no such slot.
    pub fn get(&self, store: &Store, index: u32) -> (entry: Option<vm::Anyfunc>)
        requires
            self.valid_in(store@),
        ensures
            entry == (if index < store@.tables[self.addr as int].elements.len() {
                Some(store@.tables[self.addr as int].elements[index as int])
            } else {
                None
            }),
    {
        let backing = &store.tables[self.addr].storage.backing;
        if (index as usize) < backing.len() {
            Some(backing[index as usize])
        } else {
            None
        }
    }

    /// Writes `entry` to the slot at `index` and touches no other slot. The
    /// write is refused, and nothing changes, where the table has no such
    /// slot.
    pub fn set(&self, store: &mut Store, index: u32, entry: vm::Anyfunc) -> (written: Result<
        (),
        (),
    >)
        requires
            old(store).wf(),
            self.valid_in(old(store)@),
        ensures
            final(store).wf(),
            written.is_ok() == (index < old(store)@.tables[self.addr as int].elements.len()),
            written.is_ok() ==> final(store)@ == old(store)@.with_table(
                self.addr as int,
                TableView {
                    desc: self.desc,
                    elements: old(store)@.tables[self.addr as int].elements.update(
                        index as int,
                        entry,
                    ),
                },
            ),
            written.is_err() ==> final(store)@ == old(store)@,
    {
        if index as usize >= store.tables[self.addr].storage.backing.len() {
            return Err(());
        }
        store.tables[self.addr].storage.backing[index as usize] = entry;
        proof {
            assert(store@.tables =~= old(store)@.tables.update(
                self.addr as int,
                TableView {
                    desc: self.desc,
                    elements: old(store)@.tables[self.addr as int].elements.update(
                        index as int,
                        entry,
                    ),
                },
            ));
        }
        Ok(())
    }

    /// Hands to `f` all entries of the table, to be changed in place, and
    /// gives what `f` gives. What `f` leaves in the slice are the entries of
    /// the table afterwards.
    pub fn anyfunc_direct_access_mut<F, R>(&self, store: &mut Store, f: F) -> (r: R) where
        F: FnOnce(&mut [vm::Anyfunc]) -> R,

        requires
            old(store).wf(),
            self.valid_in(old(store)@),
            forall|s: &mut [vm::Anyfunc]|
                s@ == old(store)@.tables[self.addr as int].elements ==> f.requires((s,)),
        ensures
            final(store).wf(),
            exists|s: &mut [vm::Anyfunc]|
                s@ == old(store)@.tables[self.addr as int].elements && f.ensures((s,), r)
                    && final(store)@ == (if final(s)@.len() == s@.len() {
                    old(store)@.with_table(
                        self.addr as int,
                        TableView { desc: self.desc, elements: final(s)@ },
                    )
                } else {
                    old(store)@
                }),
    {
        let mut entries = store.tables[self.addr].storage.backing.clone();
        let r = f(entries.as_mut_slice());
        if entries.len() == store.tables[self.addr].storage.backing.len() {
            store.tables[self.addr].storage.backing = entries;
            proof {
                assert(store@.tables =~= old(store)@.tables.update(
                    self.addr as int,
                    store@.tables[self.addr as int],
                ));
            }
        }
        r
    }

    /// Where generated code finds the record of the table.
    pub fn vm_local_table(&mut self) -> (place: vm::LocalTableRef)
        ensures
            place.0 == old(self).addr,
            *final(self) == *old(self),
    {
        vm::LocalTableRef(self.addr)
    }
}

/// A table is never smaller than its minimum, and never larger than its
/// maximum where it has one that is not below the minimum.
pub proof fn lemma_table_size_within_limits(store: &Store, table: Table)
    requires
        store.wf(),
        table.valid_in(store@),
    ensures
        table.desc.minimum <= store@.tables[table.addr as int].elements.len(),
        table.desc.maximum matches Some(limit) ==> (table.desc.minimum <= limit
            ==> store@.tables[table.addr as int].elements.len() <= limit),
{
    assert(store.tables[table.addr as int].wf());
}

} // verus!
