//! Mission listing parameters.

use vstd::prelude::*;

verus! {

/// Query parameters of the mission list: an optional status filter and
/// pagination.
#[derive(Debug, Clone)]
pub struct ListMissionsQuery {
    pub status: Option<String>,
    pub page: Option<i64>,
    pub limit: Option<i64>,
}

/// The page requested by `page`: the first page when absent, and never
/// before the first page.
pub open spec fn page_of(page: Option<i64>) -> i64 {
    let p = match page {
        Some(p) => p,
        None => 1,
    };
    if p < 1 {
        1
    } else {
        p
    }
}

/// The page size requested by `limit`: 50 when absent, at most 200.
pub open spec fn limit_of(limit: Option<i64>) -> i64 {
    let l = match limit {
        Some(l) => l,
        None => 50,
    };
    if l > 200 {
        200
    } else {
        l
    }
}

impl ListMissionsQuery {
    /// The page to return.
    pub fn page_number(&self) -> (p: i64)
        ensures
            p == page_of(self.page),
            p >= 1,
            self.page is None ==> p == 1,
            self.page matches Some(q) ==> (q >= 1 ==> p == q),
            self.page matches Some(q) ==> (q < 1 ==> p == 1),
    {
        let p = match self.page {
            Some(p) => p,
            None => 1,
        };
        if p < 1 {
            1
        } else {
            p
        }
    }

    /// The number of missions per page.
    pub fn page_size(&self) -> (l: i64)
        ensures
            l == limit_of(self.limit),
            l <= 200,
            self.limit is None ==> l == 50,
            self.limit matches Some(m) ==> (m <= 200 ==> l == m),
            self.limit matches Some(m) ==> (m > 200 ==> l == 200),
    {
        let l = match self.limit {
            Some(l) => l,
            None => 50,
        };
        if l > 200 {
            200
        } else {
            l
        }
    }
}

/// The page size is the requested limit when it is at most 200, 200 when
/// it is larger, and 50 when none is given.
pub proof fn lemma_page_size(limit: Option<i64>)
    ensures
        limit is None ==> limit_of(limit) == 50,
        limit matches Some(l) ==> (l <= 200 ==> limit_of(limit) == l),
        limit matches Some(l) ==> (l > 200 ==> limit_of(limit) == 200),
        limit_of(limit) <= 200,
{
}

/// The page is the requested one when it is at least 1, and the first page
/// when it is smaller or not given.
pub proof fn lemma_page_number(page: Option<i64>)
    ensures
        page is None ==> page_of(page) == 1,
        page matches Some(p) ==> (p >= 1 ==> page_of(page) == p),
        page matches Some(p) ==> (p < 1 ==> page_of(page) == 1),
{
}

} // verus!
