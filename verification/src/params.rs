//! Request parameters: the decomposed URL query of a single endpoint request,
//! and the pagination arithmetic derived from it.

use vstd::prelude::*;

verus! {

/// The query parameters of one endpoint request.
///
/// `columns` and `order` are kept in their raw comma-separated form; the
/// compiler splits them. `filters` holds every other query pair, in the order
/// the caller supplies them. `limit` defaults to 1000 when absent, and a
/// limit of 0 disables the `LIMIT` clause. `page` defaults to 0.
#[derive(Debug, PartialEq)]
pub struct QueryParams {
    pub columns: Option<String>,
    pub filters: Vec<(String, String)>,
    pub order: Option<String>,
    pub limit: Option<u32>,
    pub page: Option<u32>,
}

pub struct QueryParamsView {
    pub columns: Option<Seq<char>>,
    pub filters: Seq<(Seq<char>, Seq<char>)>,
    pub order: Option<Seq<char>>,
    pub limit: Option<u32>,
    pub page: Option<u32>,
}

impl View for QueryParams {
    type V = QueryParamsView;

    open spec fn view(&self) -> QueryParamsView {
        QueryParamsView {
            columns: self.columns.deep_view(),
            filters: self.filters.deep_view(),
            order: self.order.deep_view(),
            limit: self.limit,
            page: self.page,
        }
    }
}

impl DeepView for QueryParams {
    type V = QueryParamsView;

    open spec fn deep_view(&self) -> QueryParamsView {
        self.view()
    }
}


impl Clone for QueryParams {
    fn clone(&self) -> (res: Self)
        ensures
            res@ == self@,
    {
        QueryParams {
            columns: match &self.columns {
                Some(c) => Some(c.clone()),
                None => None,
            },
            filters: crate::strutil::clone_pairs(&self.filters),
            order: match &self.order {
                Some(o) => Some(o.clone()),
                None => None,
            },
            limit: self.limit,
            page: self.page,
        }
    }
}

/// The row cap of a request: the `limit` parameter, or 1000 when absent.
pub open spec fn spec_limit(p: QueryParamsView) -> u32 {
    match p.limit {
        Some(l) => l,
        None => 1000u32,
    }
}

/// The row offset of a request. Absent `page` means no offset. `page == 0`
/// maps to an offset of one full page (a compatibility quirk, kept
/// deliberately); `page == n` for `n >= 1` maps to `(n - 1) * limit`.
pub open spec fn spec_offset(p: QueryParamsView) -> u64 {
    match p.page {
        None => 0u64,
        Some(pg) => if pg == 0 {
            spec_limit(p) as u64
        } else {
            ((pg - 1) * spec_limit(p) as int) as u64
        },
    }
}

impl QueryParams {
    /// The row cap of this request.
    pub fn effective_limit(&self) -> (r: u32)
        ensures
            r == spec_limit(self@),
    {
        match self.limit {
            Some(l) => l,
            None => 1000,
        }
    }

    /// The row offset of this request (see `spec_offset` for the `page == 0`
    /// quirk).
    pub fn effective_offset(&self) -> (r: u64)
        ensures
            r == spec_offset(self@),
    {
        let limit = self.effective_limit();
        match self.page {
            None => 0,
            Some(pg) => {
                if pg == 0 {
                    limit as u64
                } else {
                    proof {
                        assert((pg - 1) as u64 * limit as u64 <= 0xFFFF_FFFFu64 * 0xFFFF_FFFFu64)
                            by (nonlinear_arith)
                            requires
                                (pg - 1) as u64 <= 0xFFFF_FFFFu64,
                                limit as u64 <= 0xFFFF_FFFFu64,
                        ;
                    }
                    (pg - 1) as u64 * limit as u64
                }
            },
        }
    }
}

/// The pagination boundaries: no `page` means offset 0; `page == 0` keeps the
/// quirk of one full page of offset; `page == 1` starts at the first row;
/// `page == n > 1` skips `n - 1` pages.
pub proof fn lemma_offset_quirk(p: QueryParamsView)
    ensures
        p.page is None ==> spec_offset(p) == 0,
        p.page == Some(0u32) ==> spec_offset(p) == spec_limit(p) as u64,
        p.page == Some(1u32) ==> spec_offset(p) == 0,
        forall|n: u32|
            n > 1 && p.page == Some(n) ==> spec_offset(p) == ((n - 1) * spec_limit(p) as int) as u64,
{
}

} // verus!
