//! The envelope of a response and the paging of a list.

use vstd::prelude::*;

verus! {

/// How a list was paged.
#[derive(Clone, Copy, Debug, PartialEq, Eq, Structural)]
pub struct Meta {
    pub total: i64,
    pub page: Option<i64>,
    pub per_page: Option<i64>,
}

/// A response: the data, and for a list how it was paged.
#[derive(Debug, PartialEq, Eq)]
pub struct ApiResponse<T> {
    pub data: T,
    pub meta: Option<Meta>,
}

impl<T> ApiResponse<T> {
    /// A response that carries `data` alone.
    pub fn ok(data: T) -> (r: ApiResponse<T>)
        ensures
            r.data == data,
            r.meta is None,
    {
        ApiResponse { data, meta: None }
    }

    /// A response that carries one page of a list of `total` items.
    pub fn list(data: T, total: i64, page: i64, per_page: i64) -> (r: ApiResponse<T>)
        ensures
            r.data == data,
            r.meta == Some(Meta { total, page: Some(page), per_page: Some(per_page) }),
    {
        ApiResponse { data, meta: Some(Meta { total, page: Some(page), per_page: Some(per_page) }) }
    }
}

/// The page that a request asks for when it asks for `page`: the first page
/// where it asks for none or for one below the first.
pub open spec fn page_of(page: Option<i64>) -> int {
    match page {
        Some(p) => if p < 1 {
            1
        } else {
            p as int
        },
        None => 1,
    }
}

/// The page size that a request gets when it asks for `per_page`: the
/// default where it asks for none, and else what it asks for, kept between 1
/// and 100.
pub open spec fn page_size_of(per_page: Option<i64>, default: int) -> int {
    match per_page {
        Some(n) => if n < 1 {
            1
        } else if n > 100 {
            100
        } else {
            n as int
        },
        None => if default < 1 {
            1
        } else if default > 100 {
            100
        } else {
            default
        },
    }
}

/// The number of items before the page `page` of size `per_page`.
pub open spec fn offset_of(page: Option<i64>, per_page: Option<i64>, default: int) -> int {
    (page_of(page) - 1) * page_size_of(per_page, default)
}

/// The page of a list that a request asks for.
#[derive(Clone, Copy, Debug, PartialEq, Eq, Structural)]
pub struct PaginationParams {
    pub page: Option<i64>,
    pub per_page: Option<i64>,
}

/// The page number for an optional wish.
pub fn resolve_page(page: Option<i64>) -> (r: i64)
    ensures
        r == page_of(page),
        r >= 1,
{
    match page {
        Some(p) => if p < 1 {
            1
        } else {
            p
        },
        None => 1,
    }
}

/// The page size for an optional wish and a default.
pub fn resolve_page_size(per_page: Option<i64>, default: i64) -> (r: i64)
    ensures
        r == page_size_of(per_page, default as int),
        1 <= r <= 100,
{
    let wish = match per_page {
        Some(n) => n,
        None => default,
    };
    if wish < 1 {
        1
    } else if wish > 100 {
        100
    } else {
        wish
    }
}

/// The number of items to skip for a page, or `None` where that number is
/// beyond what an `i64` holds.
pub fn resolve_offset(page: Option<i64>, per_page: Option<i64>, default: i64) -> (r: Option<i64>)
    ensures
        r == if offset_of(page, per_page, default as int) <= i64::MAX {
            Some(offset_of(page, per_page, default as int) as i64)
        } else {
            None
        },
{
    let p = resolve_page(page);
    let n = resolve_page_size(per_page, default);
    let skipped = p - 1;
    assert(offset_of(page, per_page, default as int) == skipped * n);
    if skipped <= i64::MAX / n {
        assert(skipped * n <= i64::MAX) by (nonlinear_arith)
            requires
                0 <= skipped <= i64::MAX / n,
                1 <= n <= 100,
        ;
        assert(0 <= skipped * n) by (nonlinear_arith)
            requires
                0 <= skipped,
                1 <= n,
        ;
        Some(skipped * n)
    } else {
        assert(skipped * n > i64::MAX) by (nonlinear_arith)
            requires
                skipped > i64::MAX / n,
                1 <= n <= 100,
        ;
        None
    }
}

impl PaginationParams {
    /// The page asked for, and the first page by default.
    pub fn page(&self) -> (r: i64)
        ensures
            r == page_of(self.page),
            r >= 1,
    {
        resolve_page(self.page)
    }

    /// The page size asked for, between 1 and 100, and 20 by default.
    pub fn per_page(&self) -> (r: i64)
        ensures
            r == page_size_of(self.per_page, 20),
            1 <= r <= 100,
    {
        resolve_page_size(self.per_page, 20)
    }

    /// The number of items before the page asked for.
    pub fn offset(&self) -> (r: i64)
        requires
            offset_of(self.page, self.per_page, 20) <= i64::MAX,
        ensures
            r == offset_of(self.page, self.per_page, 20),
    {
        let p = self.page();
        let n = self.per_page();
        assert(0 <= (p - 1) * n) by (nonlinear_arith)
            requires
                1 <= p,
                1 <= n,
        ;
        (p - 1) * n
    }

    /// The number of items before the page asked for, or `None` where that
    /// number is beyond what an `i64` holds.
    pub fn checked_offset(&self) -> (r: Option<i64>)
        ensures
            r == if offset_of(self.page, self.per_page, 20) <= i64::MAX {
                Some(offset_of(self.page, self.per_page, 20) as i64)
            } else {
                None
            },
    {
        resolve_offset(self.page, self.per_page, 20)
    }
}

} // verus!
