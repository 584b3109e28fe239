use vstd::prelude::*;

verus! {

/// A list endpoint's query parameters: an optional page number (counted from
/// one) and an optional page size. Used only to compute a result window;
/// never persisted.
pub struct FilterOptions {
    pub page: Option<usize>,
    pub limit: Option<usize>,
}

/// The page size that a list endpoint uses: the supplied one, or the
/// endpoint's default.
pub open spec fn spec_limit(opts: FilterOptions, default_limit: usize) -> int {
    match opts.limit {
        Some(l) => l as int,
        None => default_limit as int,
    }
}

/// The page number that a list endpoint uses: the supplied one, or one.
pub open spec fn spec_page(opts: FilterOptions) -> int {
    match opts.page {
        Some(p) => p as int,
        None => 1,
    }
}

/// The number of rows skipped before the window starts.
pub open spec fn spec_offset(opts: FilterOptions, default_limit: usize) -> int {
    (spec_page(opts) - 1) * spec_limit(opts, default_limit)
}

/// The inputs on which the window arithmetic is defined: a page number of
/// zero would step before the first page, and the skip count must fit the
/// machine word.
pub open spec fn valid_filter(opts: FilterOptions, default_limit: usize) -> bool {
    &&& spec_page(opts) >= 1
    &&& spec_offset(opts, default_limit) <= usize::MAX as int
}

/// The window of `s` that a list endpoint returns: up to `limit` elements
/// starting `offset` elements in; empty when the offset runs past the end.
pub open spec fn window<A>(s: Seq<A>, offset: int, limit: int) -> Seq<A> {
    if offset >= s.len() {
        Seq::empty()
    } else if offset + limit >= s.len() {
        s.subrange(offset, s.len() as int)
    } else {
        s.subrange(offset, offset + limit)
    }
}

/// A window never holds more than `limit` elements.
pub proof fn lemma_window_len<A>(s: Seq<A>, offset: int, limit: int)
    requires
        offset >= 0,
        limit >= 0,
    ensures
        window(s, offset, limit).len() <= limit,
        window(s, offset, limit).len() <= s.len(),
{
}

/// Resolves the query parameters to the `(limit, offset)` pair that the
/// window is taken with: `limit` defaults to the endpoint's own default,
/// and `offset` skips `page - 1` whole pages.
pub fn page_window(opts: &FilterOptions, default_limit: usize) -> (r: (usize, usize))
    requires
        valid_filter(*opts, default_limit),
    ensures
        r.0 == spec_limit(*opts, default_limit),
        r.1 == spec_offset(*opts, default_limit),
{
    let limit = match opts.limit {
        Some(l) => l,
        None => default_limit,
    };
    let page = match opts.page {
        Some(p) => p,
        None => 1,
    };
    let offset = (page - 1) * limit;
    (limit, offset)
}

impl Default for FilterOptions {
    /// No page and no limit: the endpoint's defaults apply.
    fn default() -> (r: Self)
        ensures
            r.page is None,
            r.limit is None,
    {
        FilterOptions { page: None, limit: None }
    }
}

} // verus!
