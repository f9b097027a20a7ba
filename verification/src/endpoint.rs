//! The endpoint model: a declarative specification binding an externally
//! addressable name to a dataset plus a restricted query vocabulary.
//!
//! Lookups into the vocabulary (columns, aggregates, filter aliases) return
//! the first entry whose key matches, in input order; endpoint lookup by name
//! is case-insensitive and also keeps the first match.

use vstd::prelude::*;

use crate::strutil::lower_of;
use crate::strutil::str_eq;
use crate::strutil::to_lowercase;

verus! {

/// A column exposable by an endpoint, with optional output renaming.
#[derive(Debug, PartialEq)]
pub struct Column {
    pub name: String,
    pub alias: Option<String>,
    pub data_type: Option<String>,
}

/// A named SQL expression exposed under a single external identifier;
/// `formula` is the raw fragment emitted as `formula AS name`.
#[derive(Debug, PartialEq)]
pub struct Aggregate {
    pub name: String,
    pub formula: String,
    pub data_type: Option<String>,
}

/// An endpoint-defined filter name whose formula carries the underlying
/// column and operator joined by the separator `__`.
#[derive(Debug, PartialEq)]
pub struct Filter {
    pub alias: String,
    pub formula: String,
    pub required: bool,
}

/// A declarative endpoint specification.
#[derive(Debug, PartialEq)]
pub struct Endpoint {
    pub name: String,
    pub dataset: String,
    pub columns: Vec<Column>,
    pub aggregates: Vec<Aggregate>,
    pub filters: Vec<Filter>,
    pub default_columns: Vec<String>,
    pub depends_on: Vec<String>,
}

pub struct ColumnView {
    pub name: Seq<char>,
    pub alias: Option<Seq<char>>,
    pub data_type: Option<Seq<char>>,
}

pub struct AggregateView {
    pub name: Seq<char>,
    pub formula: Seq<char>,
    pub data_type: Option<Seq<char>>,
}

pub struct FilterView {
    pub alias: Seq<char>,
    pub formula: Seq<char>,
    pub required: bool,
}

pub struct EndpointView {
    pub name: Seq<char>,
    pub dataset: Seq<char>,
    pub columns: Seq<ColumnView>,
    pub aggregates: Seq<AggregateView>,
    pub filters: Seq<FilterView>,
    pub default_columns: Seq<Seq<char>>,
    pub depends_on: Seq<Seq<char>>,
}

impl View for Column {
    type V = ColumnView;

    open spec fn view(&self) -> ColumnView {
        ColumnView { name: self.name@, alias: self.alias.deep_view(), data_type: self.data_type.deep_view() }
    }
}

impl DeepView for Column {
    type V = ColumnView;

    open spec fn deep_view(&self) -> ColumnView {
        self.view()
    }
}

impl View for Aggregate {
    type V = AggregateView;

    open spec fn view(&self) -> AggregateView {
        AggregateView {
            name: self.name@,
            formula: self.formula@,
            data_type: self.data_type.deep_view(),
        }
    }
}

impl DeepView for Aggregate {
    type V = AggregateView;

    open spec fn deep_view(&self) -> AggregateView {
        self.view()
    }
}

impl View for Filter {
    type V = FilterView;

    open spec fn view(&self) -> FilterView {
        FilterView { alias: self.alias@, formula: self.formula@, required: self.required }
    }
}

impl DeepView for Filter {
    type V = FilterView;

    open spec fn deep_view(&self) -> FilterView {
        self.view()
    }
}

impl View for Endpoint {
    type V = EndpointView;

    open spec fn view(&self) -> EndpointView {
        EndpointView {
            name: self.name@,
            dataset: self.dataset@,
            columns: self.columns.deep_view(),
            aggregates: self.aggregates.deep_view(),
            filters: self.filters.deep_view(),
            default_columns: self.default_columns.deep_view(),
            depends_on: self.depends_on.deep_view(),
        }
    }
}

impl DeepView for Endpoint {
    type V = EndpointView;

    open spec fn deep_view(&self) -> EndpointView {
        self.view()
    }
}

impl Clone for Column {
    fn clone(&self) -> (res: Self)
        ensures
            res == *self,
    {
        Column {
            name: self.name.clone(),
            alias: match &self.alias {
                Some(a) => Some(a.clone()),
                None => None,
            },
            data_type: match &self.data_type {
                Some(d) => Some(d.clone()),
                None => None,
            },
        }
    }
}

impl Clone for Aggregate {
    fn clone(&self) -> (res: Self)
        ensures
            res == *self,
    {
        Aggregate {
            name: self.name.clone(),
            formula: self.formula.clone(),
            data_type: match &self.data_type {
                Some(d) => Some(d.clone()),
                None => None,
            },
        }
    }
}

impl Clone for Filter {
    fn clone(&self) -> (res: Self)
        ensures
            res == *self,
    {
        Filter { alias: self.alias.clone(), formula: self.formula.clone(), required: self.required }
    }
}

impl Clone for Endpoint {
    fn clone(&self) -> (res: Self)
        ensures
            res@ == self@,
    {
        let columns = self.columns.clone();
        let aggregates = self.aggregates.clone();
        let filters = self.filters.clone();
        proof {
            assert forall|i: int| 0 <= i < self.columns@.len() implies columns@[i]
                == self.columns@[i] by {}
            assert(columns@ =~= self.columns@);
            assert forall|i: int| 0 <= i < self.aggregates@.len() implies aggregates@[i]
                == self.aggregates@[i] by {}
            assert(aggregates@ =~= self.aggregates@);
            assert forall|i: int| 0 <= i < self.filters@.len() implies filters@[i]
                == self.filters@[i] by {}
            assert(filters@ =~= self.filters@);
        }
        Endpoint {
            name: self.name.clone(),
            dataset: self.dataset.clone(),
            columns,
            aggregates,
            filters,
            default_columns: crate::strutil::clone_strings(self.default_columns.as_slice()),
            depends_on: crate::strutil::clone_strings(self.depends_on.as_slice()),
        }
    }
}

/// The first aggregate of `aggs` named `name`, in input order.
pub open spec fn spec_get_aggregate(aggs: Seq<AggregateView>, name: Seq<char>) -> Option<AggregateView>
    decreases aggs.len(),
{
    if aggs.len() == 0 {
        None
    } else if aggs[0].name == name {
        Some(aggs[0])
    } else {
        spec_get_aggregate(aggs.subrange(1, aggs.len() as int), name)
    }
}

/// The first column of `cols` named `name`, in input order.
pub open spec fn spec_get_column(cols: Seq<ColumnView>, name: Seq<char>) -> Option<ColumnView>
    decreases cols.len(),
{
    if cols.len() == 0 {
        None
    } else if cols[0].name == name {
        Some(cols[0])
    } else {
        spec_get_column(cols.subrange(1, cols.len() as int), name)
    }
}

/// The alias under which a schema column is projected, when the endpoint
/// declares one for it.
pub open spec fn spec_get_alias(cols: Seq<ColumnView>, name: Seq<char>) -> Option<Seq<char>> {
    match spec_get_column(cols, name) {
        Some(c) => c.alias,
        None => None,
    }
}

/// The first filter of `filters` whose alias is `alias`, in input order.
pub open spec fn spec_get_filter(filters: Seq<FilterView>, alias: Seq<char>) -> Option<FilterView>
    decreases filters.len(),
{
    if filters.len() == 0 {
        None
    } else if filters[0].alias == alias {
        Some(filters[0])
    } else {
        spec_get_filter(filters.subrange(1, filters.len() as int), alias)
    }
}

impl Endpoint {
    /// The output alias of the endpoint column named `name`: the alias of the
    /// first matching column entry, or `None` when no entry matches or the
    /// matching entry declares no alias.
    pub fn get_alias_column(&self, name: &str) -> (r: Option<String>)
        ensures
            r.deep_view() == spec_get_alias(self@.columns, name@),
    {
        proof {
            assert(self@.columns.subrange(0, self.columns.len() as int) =~= self@.columns);
        }
        let mut i: usize = 0;
        while i < self.columns.len()
            invariant
                i <= self.columns.len(),
                spec_get_column(self@.columns, name@) == spec_get_column(
                    self@.columns.subrange(i as int, self.columns.len() as int),
                    name@,
                ),
            decreases self.columns.len() - i,
        {
            proof {
                assert(self@.columns.subrange(i as int, self.columns.len() as int).subrange(
                    1,
                    self@.columns.subrange(i as int, self.columns.len() as int).len() as int,
                ) =~= self@.columns.subrange(i + 1, self.columns.len() as int));
            }
            if str_eq(self.columns[i].name.as_str(), name) {
                return self.columns[i].alias.clone();
            }
            i = i + 1;
        }
        None
    }

    /// The first aggregate of this endpoint named `name`.
    pub fn get_aggregate_column(&self, name: &str) -> (r: Option<&Aggregate>)
        ensures
            match r {
                Some(a) => spec_get_aggregate(self@.aggregates, name@) == Some(a@),
                None => spec_get_aggregate(self@.aggregates, name@) is None,
            },
    {
        proof {
            assert(self@.aggregates.subrange(0, self.aggregates.len() as int) =~= self@.aggregates);
        }
        let mut i: usize = 0;
        while i < self.aggregates.len()
            invariant
                i <= self.aggregates.len(),
                spec_get_aggregate(self@.aggregates, name@) == spec_get_aggregate(
                    self@.aggregates.subrange(i as int, self.aggregates.len() as int),
                    name@,
                ),
            decreases self.aggregates.len() - i,
        {
            proof {
                assert(self@.aggregates.subrange(i as int, self.aggregates.len() as int).subrange(
                    1,
                    self@.aggregates.subrange(i as int, self.aggregates.len() as int).len() as int,
                ) =~= self@.aggregates.subrange(i + 1, self.aggregates.len() as int));
            }
            if str_eq(self.aggregates[i].name.as_str(), name) {
                return Some(&self.aggregates[i]);
            }
            i = i + 1;
        }
        None
    }

    /// The first filter of this endpoint whose alias is `alias`.
    pub fn get_filter_statement(&self, alias: &str) -> (r: Option<&Filter>)
        ensures
            match r {
                Some(f) => spec_get_filter(self@.filters, alias@) == Some(f@),
                None => spec_get_filter(self@.filters, alias@) is None,
            },
    {
        proof {
            assert(self@.filters.subrange(0, self.filters.len() as int) =~= self@.filters);
        }
        let mut i: usize = 0;
        while i < self.filters.len()
            invariant
                i <= self.filters.len(),
                spec_get_filter(self@.filters, alias@) == spec_get_filter(
                    self@.filters.subrange(i as int, self.filters.len() as int),
                    alias@,
                ),
            decreases self.filters.len() - i,
        {
            proof {
                assert(self@.filters.subrange(i as int, self.filters.len() as int).subrange(
                    1,
                    self@.filters.subrange(i as int, self.filters.len() as int).len() as int,
                ) =~= self@.filters.subrange(i + 1, self.filters.len() as int));
            }
            if str_eq(self.filters[i].alias.as_str(), alias) {
                return Some(&self.filters[i]);
            }
            i = i + 1;
        }
        None
    }

    /// A copy of this endpoint whose boot-ordering hints are `depends_on`.
    pub fn with_depends_on(&self, depends_on: &[String]) -> (r: Endpoint)
        ensures
            r@ == (EndpointView { depends_on: depends_on.deep_view(), ..self@ }),
    {
        let mut r = self.clone();
        r.depends_on = crate::strutil::clone_strings(depends_on);
        r
    }
}

/// The index of the first endpoint whose name matches `name`
/// case-insensitively; duplicated entries keep the first match, in input
/// order.
pub fn find_endpoint(endpoints: &Vec<Endpoint>, name: &str) -> (r: Option<usize>)
    ensures
        match r {
            Some(i) => i < endpoints.len() && lower_of(endpoints.deep_view()[i as int].name)
                == lower_of(name@) && (forall|j: int|
                0 <= j < i ==> lower_of(endpoints.deep_view()[j].name) != lower_of(name@)),
            None => forall|j: int|
                0 <= j < endpoints.len() ==> lower_of(endpoints.deep_view()[j].name) != lower_of(
                    name@,
                ),
        },
{
    let target = to_lowercase(name);
    let mut i: usize = 0;
    while i < endpoints.len()
        invariant
            i <= endpoints.len(),
            target@ == lower_of(name@),
            forall|j: int| 0 <= j < i ==> lower_of(endpoints.deep_view()[j].name) != lower_of(name@),
        decreases endpoints.len() - i,
    {
        let lowered = to_lowercase(endpoints[i].name.as_str());
        if lowered == target {
            proof {
                assert(lower_of(endpoints.deep_view()[i as int].name) == lower_of(name@));
            }
            return Some(i);
        }
        i = i + 1;
    }
    None
}

} // verus!
