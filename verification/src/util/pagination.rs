use vstd::prelude::*;

verus! {

/// The page of a listing that a client asks for (pages count from 1).
#[derive(Debug, Clone, Copy)]
pub struct Paginator {
    pub limit: i64,
    pub page: i64,
}

/// The bounds `(first, last)` announced in the `content-range` of a page:
/// `first` is the position of the page's first item, `(page - 1) * limit`,
/// and `last` is `first` plus the number of items the page holds.
pub fn content_range(limit: i64, page: i64, content_len: usize) -> (r: (i64, i64))
    requires
        i64::MIN <= page - 1,
        i64::MIN <= (page - 1) * limit <= i64::MAX,
        content_len <= i64::MAX,
        i64::MIN <= (page - 1) * limit + content_len <= i64::MAX,
    ensures
        r.0 == (page - 1) * limit,
        r.1 == r.0 + content_len,
{
    let first = (page - 1) * limit;
    let len = content_len as i64;
    (first, first + len)
}

} // verus!
