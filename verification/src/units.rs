//! Sizes of linear memory, counted in pages and in bytes.

use vstd::prelude::*;

verus! {

/// Number of bytes in one page of linear memory.
pub const WASM_PAGE_SIZE: usize = 65_536;

/// Largest number of pages that a linear memory can hold (4 GiB in all).
pub const WASM_MAX_PAGES: usize = 65_536;

/// A size counted in pages.
#[derive(Clone, Copy, Debug, PartialEq, Eq, Structural)]
pub struct Pages(pub u32);

/// A size counted in bytes.
#[derive(Clone, Copy, Debug, PartialEq, Eq, Structural)]
pub struct Bytes(pub usize);

impl Pages {
    /// The number of bytes that this many pages hold, as a mathematical integer.
    pub open spec fn byte_count(self) -> int {
        self.0 as int * 65_536
    }

    /// Whether the byte count of this many pages can be held in a `usize`.
    pub open spec fn addressable(self) -> bool {
        self.byte_count() <= usize::MAX
    }

    /// Adds two page counts. The sum is refused when it exceeds
    /// [`WASM_MAX_PAGES`].
    pub fn checked_add(self, rhs: Pages) -> (sum: Option<Pages>)
        ensures
            sum == (if self.0 + rhs.0 <= WASM_MAX_PAGES {
                Some(Pages((self.0 + rhs.0) as u32))
            } else {
                None
            }),
    {
        let added: u64 = self.0 as u64 + rhs.0 as u64;
        if added <= WASM_MAX_PAGES as u64 {
            Some(Pages(added as u32))
        } else {
            None
        }
    }

    /// Tells at run time whether [`Pages::bytes`] can be called.
    pub fn is_addressable(self) -> (fits: bool)
        ensures
            fits == self.addressable(),
    {
        self.0 as u64 <= (usize::MAX / WASM_PAGE_SIZE) as u64
    }

    /// The size of this many pages in bytes.
    pub fn bytes(self) -> (bytes: Bytes)
        requires
            self.addressable(),
        ensures
            bytes.0 == self.byte_count(),
    {
        Bytes(self.0 as usize * WASM_PAGE_SIZE)
    }
}

} // verus!
