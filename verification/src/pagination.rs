//! Listing windows: the page, size and offset that a listing request asks for.

use vstd::prelude::*;

verus! {

/// The page number a listing request gets: the requested one, 1 when absent, never below 1.
pub open spec fn spec_clamped_page(page: Option<i32>) -> int {
    let p = match page {
        Some(p) => p as int,
        None => 1int,
    };
    if p < 1 { 1 } else { p }
}

/// The page size a listing request gets: the requested one, `default` when absent, at most `max`.
pub open spec fn spec_clamped_limit(limit: Option<i32>, default: i32, max: i32) -> int {
    let l = match limit {
        Some(l) => l as int,
        None => default as int,
    };
    if l > max { max as int } else { l }
}

/// The page, size and number of skipped rows of one listing request.
#[derive(Clone, Copy, Debug, PartialEq, Eq)]
pub struct PageWindow {
    pub page: i32,
    pub limit: i32,
    pub offset: i32,
}

/// Normalizes a page and a page size as the listing endpoints do: the page defaults to 1
/// and is raised to 1, the size defaults to `default_limit` and is capped at `max_limit`;
/// the offset is `(page - 1) * limit`.
pub fn page_window(page: Option<i32>, limit: Option<i32>, default_limit: i32, max_limit: i32) -> (w:
    PageWindow)
    requires
        i32::MIN <= (spec_clamped_page(page) - 1) * spec_clamped_limit(limit, default_limit, max_limit)
            <= i32::MAX,
    ensures
        w.page == spec_clamped_page(page),
        w.limit == spec_clamped_limit(limit, default_limit, max_limit),
        w.offset == (w.page - 1) * w.limit,
{
    let p: i32 = match page {
        Some(p) => p,
        None => 1,
    };
    let p: i32 = if p < 1 { 1 } else { p };
    let l: i32 = match limit {
        Some(l) => l,
        None => default_limit,
    };
    let l: i32 = if l > max_limit { max_limit } else { l };
    let offset: i32 = (p - 1) * l;
    PageWindow { page: p, limit: l, offset }
}

/// Rows skipped before page `page` of size `limit` (pages count from 1).
pub fn page_offset(page: usize, limit: usize) -> (offset: usize)
    requires
        page >= 1,
        (page - 1) * limit <= usize::MAX,
    ensures
        offset == (page - 1) * limit,
{
    (page - 1) * limit
}

/// Number of pages of size `limit` that `total` rows fill: the ceiling of `total / limit`.
pub fn total_pages(total: usize, limit: usize) -> (pages: usize)
    requires
        limit > 0,
        total + limit <= usize::MAX,
    ensures
        pages == (total + limit - 1) / limit as int,
        pages * limit >= total,
        pages == 0 || (pages - 1) * limit < total,
{
    let pages = (total + limit - 1) / limit;
    proof {
        lemma_ceiling_division(total as int, limit as int);
    }
    pages
}

/// The ceiling division `(total + limit - 1) / limit` covers `total` and no page is empty.
pub proof fn lemma_ceiling_division(total: int, limit: int)
    requires
        total >= 0,
        limit > 0,
    ensures
        ((total + limit - 1) / limit) * limit >= total,
        (total + limit - 1) / limit == 0 || ((total + limit - 1) / limit - 1) * limit < total,
{
    let q = (total + limit - 1) / limit;
    let r = (total + limit - 1) % limit;
    assert(q * limit + r == total + limit - 1) by (nonlinear_arith)
        requires
            limit > 0,
            q == (total + limit - 1) / limit,
            r == (total + limit - 1) % limit,
    ;
    assert(0 <= r < limit) by (nonlinear_arith)
        requires
            limit > 0,
            r == (total + limit - 1) % limit,
    ;
    assert((q - 1) * limit == q * limit - limit) by (nonlinear_arith);
}

/// One page of a listing, with the counts that let a client page through it.
pub struct PaginatedResult<T> {
    pub data: Vec<T>,
    pub total: usize,
    pub page: usize,
    pub per_page: usize,
    pub total_pages: usize,
}

impl<T> PaginatedResult<T> {
    /// Wraps one page of rows; `total_pages` is the ceiling of `total / per_page`.
    pub fn new(data: Vec<T>, total: usize, page: usize, per_page: usize) -> (r: Self)
        requires
            per_page > 0,
            total + per_page <= usize::MAX,
        ensures
            r.data@ == data@,
            r.total == total,
            r.page == page,
            r.per_page == per_page,
            r.total_pages == (total + per_page - 1) / per_page as int,
    {
        let pages = total_pages(total, per_page);
        PaginatedResult { data, total, page, per_page, total_pages: pages }
    }
}

} // verus!
