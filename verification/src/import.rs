//! The imports that an embedder supplies, by namespace and name.

use vstd::prelude::*;
use crate::export::Export;

verus! {

/// An export under its name.
#[derive(Debug)]
pub struct NamedExport {
    pub name: String,
    pub export: Export,
}

/// Exports by name. Where a name occurs twice, the first entry counts.
#[derive(Debug)]
pub struct Namespace {
    pub entries: Vec<NamedExport>,
}

/// A namespace under its name.
#[derive(Debug)]
pub struct NamedNamespace {
    pub name: String,
    pub namespace: Namespace,
}

/// Namespaces by name. Where a name occurs twice, the first entry counts.
#[derive(Debug)]
pub struct ImportObject {
    pub namespaces: Vec<NamedNamespace>,
}

/// The position of the first entry of `entries` that is called `name`.
pub open spec fn find_export(entries: Seq<NamedExport>, name: Seq<char>) -> Option<int>
    decreases entries.len(),
{
    if entries.len() == 0 {
        None
    } else if entries[0].name@ == name {
        Some(0)
    } else {
        match find_export(entries.drop_first(), name) {
            Some(at) => Some(at + 1),
            None => None,
        }
    }
}

/// The position of the first entry of `entries` that is called `name`.
pub open spec fn find_namespace(entries: Seq<NamedNamespace>, name: Seq<char>) -> Option<int>
    decreases entries.len(),
{
    if entries.len() == 0 {
        None
    } else if entries[0].name@ == name {
        Some(0)
    } else {
        match find_namespace(entries.drop_first(), name) {
            Some(at) => Some(at + 1),
            None => None,
        }
    }
}

/// A position that [`find_export`] gives is that of an entry of the name,
/// and no entry before it has the name; where it gives none, no entry has
/// the name.
pub proof fn lemma_find_export(entries: Seq<NamedExport>, name: Seq<char>)
    ensures
        match find_export(entries, name) {
            Some(at) => 0 <= at < entries.len() && entries[at].name@ == name && forall|j: int|
                0 <= j < at ==> entries[j].name@ != name,
            None => forall|j: int| 0 <= j < entries.len() ==> entries[j].name@ != name,
        },
    decreases entries.len(),
{
    if entries.len() > 0 && entries[0].name@ != name {
        let rest = entries.drop_first();
        lemma_find_export(rest, name);
        match find_export(rest, name) {
            Some(at) => {
                assert forall|j: int| 0 <= j < at + 1 implies entries[j].name@ != name by {
                    if j > 0 {
                        assert(entries[j] == rest[j - 1]);
                    }
                }
            },
            None => {
                assert forall|j: int| 0 <= j < entries.len() implies entries[j].name@ != name by {
                    if j > 0 {
                        assert(entries[j] == rest[j - 1]);
                    }
                }
            },
        }
    }
}

/// As [`lemma_find_export`], for namespaces.
pub proof fn lemma_find_namespace(entries: Seq<NamedNamespace>, name: Seq<char>)
    ensures
        match find_namespace(entries, name) {
            Some(at) => 0 <= at < entries.len() && entries[at].name@ == name && forall|j: int|
                0 <= j < at ==> entries[j].name@ != name,
            None => forall|j: int| 0 <= j < entries.len() ==> entries[j].name@ != name,
        },
    decreases entries.len(),
{
    if entries.len() > 0 && entries[0].name@ != name {
        let rest = entries.drop_first();
        lemma_find_namespace(rest, name);
        match find_namespace(rest, name) {
            Some(at) => {
                assert forall|j: int| 0 <= j < at + 1 implies entries[j].name@ != name by {
                    if j > 0 {
                        assert(entries[j] == rest[j - 1]);
                    }
                }
            },
            None => {
                assert forall|j: int| 0 <= j < entries.len() implies entries[j].name@ != name by {
                    if j > 0 {
                        assert(entries[j] == rest[j - 1]);
                    }
                }
            },
        }
    }
}

/// The first position at which a name occurs is the position that the
/// search gives.
proof fn lemma_first_export(entries: Seq<NamedExport>, name: Seq<char>, at: int)
    requires
        0 <= at <= entries.len(),
        forall|j: int| 0 <= j < at ==> entries[j].name@ != name,
        at < entries.len() ==> entries[at].name@ == name,
    ensures
        find_export(entries, name) == (if at < entries.len() {
            Some(at)
        } else {
            None
        }),
{
    lemma_find_export(entries, name);
}

proof fn lemma_first_namespace(entries: Seq<NamedNamespace>, name: Seq<char>, at: int)
    requires
        0 <= at <= entries.len(),
        forall|j: int| 0 <= j < at ==> entries[j].name@ != name,
        at < entries.len() ==> entries[at].name@ == name,
    ensures
        find_namespace(entries, name) == (if at < entries.len() {
            Some(at)
        } else {
            None
        }),
{
    lemma_find_namespace(entries, name);
}

impl Namespace {
    /// A namespace with nothing in it.
    pub fn new() -> (namespace: Namespace)
        ensures
            namespace.entries@.len() == 0,
    {
        Namespace { entries: Vec::new() }
    }

    /// The export called `name`, if there is one.
    pub open spec fn spec_get_export(&self, name: Seq<char>) -> Option<Export> {
        match find_export(self.entries@, name) {
            Some(at) => Some(self.entries@[at].export),
            None => None,
        }
    }

    /// The export called `name`, if there is one.
    pub fn get_export(&self, name: &String) -> (export: Option<&Export>)
        ensures
            match export {
                Some(found) => self.spec_get_export(name@) == Some(*found),
                None => self.spec_get_export(name@).is_none(),
            },
    {
        let mut i: usize = 0;
        while i < self.entries.len()
            invariant
                i <= self.entries.len(),
                forall|j: int| 0 <= j < i ==> self.entries@[j].name@ != name@,
            decreases self.entries.len() - i,
        {
            if self.entries[i].name == *name {
                proof {
                    lemma_first_export(self.entries@, name@, i as int);
                }
                return Some(&self.entries[i].export);
            }
            i = i + 1;
        }
        proof {
            lemma_first_export(self.entries@, name@, i as int);
        }
        None
    }

    /// Puts `export` under `name`, in place of what was there under that
    /// name, if anything. Other names keep their exports.
    pub fn insert(&mut self, name: String, export: Export)
        ensures
            final(self).spec_get_export(name@) == Some(export),
            forall|other: Seq<char>|
                other != name@ ==> final(self).spec_get_export(other) == old(
                    self,
                ).spec_get_export(other),
    {
        let mut i: usize = 0;
        while i < self.entries.len()
            invariant
                i <= self.entries.len(),
                self.entries@ == old(self).entries@,
                forall|j: int| 0 <= j < i ==> self.entries@[j].name@ != name@,
            decreases self.entries.len() - i,
        {
            if self.entries[i].name == name {
                self.entries[i].export = export;
                proof {
                    lemma_first_export(self.entries@, name@, i as int);
                    assert forall|other: Seq<char>| other != name@ implies self.spec_get_export(
                        other,
                    ) == old(self).spec_get_export(other) by {
                        lemma_find_export(old(self).entries@, other);
                        let at = match find_export(old(self).entries@, other) {
                            Some(at) => at,
                            None => self.entries@.len() as int,
                        };
                        lemma_first_export(self.entries@, other, at);
                    }
                }
                return ;
            }
            i = i + 1;
        }
        let ghost added = name@;
        self.entries.push(NamedExport { name, export });
        proof {
            lemma_first_export(self.entries@, added, i as int);
            assert forall|other: Seq<char>| other != added implies self.spec_get_export(other)
                == old(self).spec_get_export(other) by {
                lemma_find_export(old(self).entries@, other);
                let at = match find_export(old(self).entries@, other) {
                    Some(at) => at,
                    None => self.entries@.len() as int,
                };
                lemma_first_export(self.entries@, other, at);
            }
        }
    }
}

impl ImportObject {
    /// An import object with nothing in it.
    pub fn new() -> (imports: ImportObject)
        ensures
            imports.namespaces@.len() == 0,
            forall|namespace: Seq<char>, name: Seq<char>|
                imports.resolve(namespace, name).is_none(),
    {
        ImportObject { namespaces: Vec::new() }
    }

    /// The namespace called `name`, if there is one.
    pub open spec fn spec_get_namespace(&self, name: Seq<char>) -> Option<Namespace> {
        match find_namespace(self.namespaces@, name) {
            Some(at) => Some(self.namespaces@[at].namespace),
            None => None,
        }
    }

    /// What is supplied as `name` of `namespace`, if anything.
    pub open spec fn resolve(&self, namespace: Seq<char>, name: Seq<char>) -> Option<Export> {
        match self.spec_get_namespace(namespace) {
            Some(found) => found.spec_get_export(name),
            None => None,
        }
    }

    /// The namespace called `name`, if there is one.
    pub fn get_namespace(&self, name: &String) -> (namespace: Option<&Namespace>)
        ensures
            match namespace {
                Some(found) => self.spec_get_namespace(name@) == Some(*found),
                None => self.spec_get_namespace(name@).is_none(),
            },
    {
        let mut i: usize = 0;
        while i < self.namespaces.len()
            invariant
                i <= self.namespaces.len(),
                forall|j: int| 0 <= j < i ==> self.namespaces@[j].name@ != name@,
            decreases self.namespaces.len() - i,
        {
            if self.namespaces[i].name == *name {
                proof {
                    lemma_first_namespace(self.namespaces@, name@, i as int);
                }
                return Some(&self.namespaces[i].namespace);
            }
            i = i + 1;
        }
        proof {
            lemma_first_namespace(self.namespaces@, name@, i as int);
        }
        None
    }

    /// What is supplied as `name` of `namespace`, if anything.
    pub fn get_export(&self, namespace: &String, name: &String) -> (export: Option<&Export>)
        ensures
            match export {
                Some(found) => self.resolve(namespace@, name@) == Some(*found),
                None => self.resolve(namespace@, name@).is_none(),
            },
    {
        match self.get_namespace(namespace) {
            Some(found) => found.get_export(name),
            None => None,
        }
    }

    /// Puts `namespace` under `name`, in place of what was there under that
    /// name, if anything. Other names keep their namespaces.
    pub fn register(&mut self, name: String, namespace: Namespace)
        ensures
            final(self).spec_get_namespace(name@) == Some(namespace),
            forall|other: Seq<char>|
                other != name@ ==> final(self).spec_get_namespace(other) == old(
                    self,
                ).spec_get_namespace(other),
    {
        let mut i: usize = 0;
        while i < self.namespaces.len()
            invariant
                i <= self.namespaces.len(),
                self.namespaces@ == old(self).namespaces@,
                forall|j: int| 0 <= j < i ==> self.namespaces@[j].name@ != name@,
            decreases self.namespaces.len() - i,
        {
            if self.namespaces[i].name == name {
                self.namespaces[i].namespace = namespace;
                proof {
                    lemma_first_namespace(self.namespaces@, name@, i as int);
                    assert forall|other: Seq<char>| other != name@ implies self.spec_get_namespace(
                        other,
                    ) == old(self).spec_get_namespace(other) by {
                        lemma_find_namespace(old(self).namespaces@, other);
                        let at = match find_namespace(old(self).namespaces@, other) {
                            Some(at) => at,
                            None => self.namespaces@.len() as int,
                        };
                        lemma_first_namespace(self.namespaces@, other, at);
                    }
                }
                return ;
            }
            i = i + 1;
        }
        let ghost added = name@;
        self.namespaces.push(NamedNamespace { name, namespace });
        proof {
            lemma_first_namespace(self.namespaces@, added, i as int);
            assert forall|other: Seq<char>| other != added implies self.spec_get_namespace(other)
                == old(self).spec_get_namespace(other) by {
                lemma_find_namespace(old(self).namespaces@, other);
                let at = match find_namespace(old(self).namespaces@, other) {
                    Some(at) => at,
                    None => self.namespaces@.len() as int,
                };
                lemma_first_namespace(self.namespaces@, other, at);
            }
        }
    }
}

} // verus!
