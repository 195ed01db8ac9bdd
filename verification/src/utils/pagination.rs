//! Page-based query shapes: a 1-based page request and the response that
//! echoes the paging parameters beside the result slice and the total count.

use vstd::prelude::*;

verus! {

/// A 1-based page request: both fields are expected to be positive.
#[derive(Debug, Clone, Copy)]
pub struct PageRequest {
    pub current_page: u64,
    pub page_size: u64,
}

/// One page of results plus the total number of matching rows, so that a
/// caller can compute the page count on its side.
#[derive(Debug)]
pub struct PageResponse<T> {
    pub records: Vec<T>,
    pub total: u64,
    pub current_page: u64,
    pub page_size: u64,
}

impl PageRequest {
    /// A request is valid when both parameters are positive.
    pub open spec fn valid(self) -> bool {
        self.current_page >= 1 && self.page_size >= 1
    }

    /// The number of rows skipped before the requested page.
    pub open spec fn spec_offset(self) -> int {
        (self.current_page - 1) * self.page_size
    }

    /// Rows skipped before the requested page: `(current_page - 1) * page_size`.
    pub fn offset(&self) -> (r: u64)
        requires
            self.valid(),
            self.spec_offset() <= u64::MAX,
        ensures
            r == self.spec_offset(),
    {
        (self.current_page - 1) * self.page_size
    }
}

} // verus!
