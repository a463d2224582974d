//! Page/offset arithmetic for the dashboard's paginated listings.

use vstd::prelude::*;

verus! {

/// Default page number when a query supplies none.
pub fn default_page() -> (r: i64)
    ensures
        r == 1,
{
    1
}

/// Default page size when a query supplies none.
pub fn default_per_page() -> (r: i64)
    ensures
        r == 20,
{
    20
}

/// Query parameters of a paginated listing request.
pub struct PaginationParams {
    pub page: i64,
    pub per_page: i64,
}

/// Row offset of a page: pages before the first contribute nothing.
pub open spec fn spec_offset(page: int, per_page: int) -> int {
    if page >= 1 {
        (page - 1) * per_page
    } else {
        0
    }
}

/// Page size clamped to the bounded range the store accepts.
pub open spec fn spec_limit(per_page: int) -> int {
    if per_page < 1 {
        1
    } else if per_page > 100 {
        100
    } else {
        per_page
    }
}

impl PaginationParams {
    pub fn offset(&self) -> (r: i64)
        requires
            i64::MIN <= spec_offset(self.page as int, self.per_page as int) <= i64::MAX,
        ensures
            r == spec_offset(self.page as int, self.per_page as int),
    {
        if self.page >= 1 {
            (self.page - 1) * self.per_page
        } else {
            0
        }
    }

    pub fn limit(&self) -> (r: i64)
        ensures
            r == spec_limit(self.per_page as int),
    {
        if self.per_page < 1 {
            1
        } else if self.per_page > 100 {
            100
        } else {
            self.per_page
        }
    }
}

/// Precomputed pagination state for rendering page controls.
pub struct Pagination {
    pub page: i64,
    pub per_page: i64,
    pub total_pages: i64,
    pub total_items: i64,
    pub has_next: bool,
    pub has_prev: bool,
}

/// Number of pages needed to hold `total_items` rows, `per_page` to a page.
pub open spec fn spec_total_pages(total_items: int, per_page: int) -> int {
    (total_items + per_page - 1) / per_page
}

impl Pagination {
    pub fn new(page: i64, per_page: i64, total_items: i64) -> (r: Pagination)
        requires
            per_page >= 1,
            total_items >= 0,
            total_items + per_page <= i64::MAX,
        ensures
            r.page == page,
            r.per_page == per_page,
            r.total_items == total_items,
            r.total_pages == spec_total_pages(total_items as int, per_page as int),
            r.has_next == (page < r.total_pages),
            r.has_prev == (page > 1),
    {
        let total_pages = (total_items + per_page - 1) / per_page;
        let has_next = page < total_pages;
        let has_prev = page > 1;
        Pagination { page, per_page, total_pages, total_items, has_next, has_prev }
    }

    pub fn next_page(&self) -> (r: Option<i64>)
        requires
            self.has_next ==> self.page < i64::MAX,
        ensures
            r == if self.has_next {
                Some((self.page + 1) as i64)
            } else {
                None::<i64>
            },
    {
        if self.has_next {
            Some(self.page + 1)
        } else {
            None
        }
    }

    pub fn prev_page(&self) -> (r: Option<i64>)
        requires
            self.has_prev ==> self.page > i64::MIN,
        ensures
            r == if self.has_prev {
                Some((self.page - 1) as i64)
            } else {
                None::<i64>
            },
    {
        if self.has_prev {
            Some(self.page - 1)
        } else {
            None
        }
    }
}

} // verus!
