//! What can go wrong while an instance is put together.

use vstd::prelude::*;
use crate::types::{FuncSig, FuncSigView, GlobalDescriptor, MemoryDescriptor, TableDescriptor};

verus! {

/// Why a memory could not be created.
#[derive(Clone, Copy, Debug, PartialEq, Eq, Structural)]
pub enum CreationError {
    /// No region could be reserved for the memory, or the memory is too
    /// large for the region that its layout reserves.
    UnableToCreateMemory,
}

/// Why an import of a module could not be linked.
#[allow(inconsistent_fields)]
#[derive(Debug, PartialEq, Eq)]
pub enum LinkError {
    /// Something of another kind was supplied under the name.
    IncorrectImportType { namespace: String, name: String, expected: String, found: String },
    /// The supplied function has another signature.
    IncorrectImportSignature { namespace: String, name: String, expected: FuncSig, found: FuncSig },
    /// Nothing was supplied under the name.
    ImportNotFound { namespace: String, name: String },
    /// The supplied memory does not fit the expected descriptor.
    IncorrectMemoryDescriptor {
        namespace: String,
        name: String,
        expected: MemoryDescriptor,
        found: MemoryDescriptor,
    },
    /// The supplied table does not fit the expected descriptor.
    IncorrectTableDescriptor {
        namespace: String,
        name: String,
        expected: TableDescriptor,
        found: TableDescriptor,
    },
    /// The supplied global has another descriptor.
    IncorrectGlobalDescriptor {
        namespace: String,
        name: String,
        expected: GlobalDescriptor,
        found: GlobalDescriptor,
    },
}

/// A link error as a mathematical value.
#[allow(inconsistent_fields)]
pub enum LinkErrorView {
    IncorrectImportType {
        namespace: Seq<char>,
        name: Seq<char>,
        expected: Seq<char>,
        found: Seq<char>,
    },
    IncorrectImportSignature {
        namespace: Seq<char>,
        name: Seq<char>,
        expected: FuncSigView,
        found: FuncSigView,
    },
    ImportNotFound { namespace: Seq<char>, name: Seq<char> },
    IncorrectMemoryDescriptor {
        namespace: Seq<char>,
        name: Seq<char>,
        expected: MemoryDescriptor,
        found: MemoryDescriptor,
    },
    IncorrectTableDescriptor {
        namespace: Seq<char>,
        name: Seq<char>,
        expected: TableDescriptor,
        found: TableDescriptor,
    },
    IncorrectGlobalDescriptor {
        namespace: Seq<char>,
        name: Seq<char>,
        expected: GlobalDescriptor,
        found: GlobalDescriptor,
    },
}

impl View for LinkError {
    type V = LinkErrorView;

    open spec fn view(&self) -> LinkErrorView {
        match self {
            LinkError::IncorrectImportType { namespace, name, expected, found } => {
                LinkErrorView::IncorrectImportType {
                    namespace: namespace@,
                    name: name@,
                    expected: expected@,
                    found: found@,
                }
            },
            LinkError::IncorrectImportSignature { namespace, name, expected, found } => {
                LinkErrorView::IncorrectImportSignature {
                    namespace: namespace@,
                    name: name@,
                    expected: expected@,
                    found: found@,
                }
            },
            LinkError::ImportNotFound { namespace, name } => LinkErrorView::ImportNotFound {
                namespace: namespace@,
                name: name@,
            },
            LinkError::IncorrectMemoryDescriptor { namespace, name, expected, found } => {
                LinkErrorView::IncorrectMemoryDescriptor {
                    namespace: namespace@,
                    name: name@,
                    expected: *expected,
                    found: *found,
                }
            },
            LinkError::IncorrectTableDescriptor { namespace, name, expected, found } => {
                LinkErrorView::IncorrectTableDescriptor {
                    namespace: namespace@,
                    name: name@,
                    expected: *expected,
                    found: *found,
                }
            },
            LinkError::IncorrectGlobalDescriptor { namespace, name, expected, found } => {
                LinkErrorView::IncorrectGlobalDescriptor {
                    namespace: namespace@,
                    name: name@,
                    expected: *expected,
                    found: *found,
                }
            },
        }
    }
}

/// The link errors of `errors` as mathematical values, in the same order.
pub open spec fn error_views(errors: Seq<LinkError>) -> Seq<LinkErrorView> {
    Seq::new(errors.len(), |i: int| errors[i]@)
}

/// What linking gives: the linked item, or every error that was found.
pub type LinkResult<T> = Result<T, Vec<LinkError>>;

} // verus!
