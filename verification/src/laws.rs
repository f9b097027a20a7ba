//! The laws of the compiler: quantified properties proved of the model that
//! `compile_sql` returns, so they hold of every compiled statement.

use vstd::prelude::*;

use crate::endpoint::EndpointView;
use crate::endpoint::spec_get_aggregate;
use crate::params::QueryParamsView;
use crate::params::spec_limit;
use crate::params::spec_offset;
use crate::endpoint::AggregateView;
use crate::endpoint::spec_get_alias;
use crate::sql::CompileErrorView;
use crate::sql::spec_comparison;
use crate::sql::spec_op_symbol;
use crate::sql::FilterKeyView;
use crate::sql::PlacementView;
use crate::sql::QueryParts;
use crate::sql::spec_column_source;
use crate::sql::spec_compile;
use crate::sql::spec_filter_term;
use crate::sql::spec_filters;
use crate::sql::spec_group_clause;
use crate::sql::spec_limit_clause;
use crate::sql::spec_offset_clause;
use crate::sql::spec_parse_filter_key;
use crate::sql::spec_parts;
use crate::sql::spec_project_one;
use crate::sql::spec_projection;

verus! {

/// `c` is an external identifier the endpoint accepts: an aggregate name or
/// a column of the dataset schema.
pub open spec fn is_known_name(ep: EndpointView, schema: Seq<Seq<char>>, c: Seq<char>) -> bool {
    is_aggregate_name(ep, c) || schema.contains(c)
}

/// `c` names an aggregate of the endpoint.
pub open spec fn is_aggregate_name(ep: EndpointView, c: Seq<char>) -> bool {
    spec_get_aggregate(ep.aggregates, c) is Some
}

/// The projection succeeds exactly when every requested name is known, and a
/// refused projection is always the caller's fault.
pub proof fn lemma_projection_ok_iff(
    ep: EndpointView,
    schema: Seq<Seq<char>>,
    names: Seq<Seq<char>>,
)
    ensures
        spec_projection(ep, schema, names) is Ok <==> (forall|k: int|
            0 <= k < names.len() ==> is_known_name(ep, schema, #[trigger] names[k])),
        spec_projection(ep, schema, names) matches Err(e) ==> e is RequestMalformed,
    decreases names.len(),
{
    if names.len() > 0 {
        let rest = names.subrange(1, names.len() as int);
        lemma_projection_ok_iff(ep, schema, rest);
        assert(forall|k: int| 0 <= k < rest.len() ==> rest[k] == names[k + 1]);
        if spec_projection(ep, schema, names) is Ok {
            assert(spec_project_one(ep, schema, names[0]) is Ok);
            assert(is_known_name(ep, schema, names[0]));
            assert(spec_projection(ep, schema, rest) is Ok);
            assert forall|k: int|
                0 <= k < names.len() implies is_known_name(ep, schema, #[trigger] names[k]) by {
                if k > 0 {
                    assert(names[k] == rest[k - 1]);
                }
            }
        }
        if forall|k: int| 0 <= k < names.len() ==> is_known_name(ep, schema, #[trigger] names[k]) {
            assert(is_known_name(ep, schema, names[0]));
            assert(spec_project_one(ep, schema, names[0]) is Ok);
            assert forall|k: int|
                0 <= k < rest.len() implies is_known_name(ep, schema, #[trigger] rest[k]) by {
                assert(rest[k] == names[k + 1]);
            }
            assert(spec_projection(ep, schema, rest) is Ok);
            assert(spec_projection(ep, schema, names) is Ok);
        }
    }
}

/// Each query pair compiles to at most one term, so the whole filter pass
/// succeeds exactly when every pair does.
pub proof fn lemma_filters_ok_iff(
    ep: EndpointView,
    schema: Seq<Seq<char>>,
    fs: Seq<(Seq<char>, Seq<char>)>,
)
    ensures
        spec_filters(ep, schema, fs) is Ok <==> (forall|k: int|
            0 <= k < fs.len() ==> spec_filter_term(
                ep,
                schema,
                (#[trigger] fs[k]).0,
                fs[k].1,
            ) is Ok),
    decreases fs.len(),
{
    if fs.len() > 0 {
        let rest = fs.subrange(1, fs.len() as int);
        lemma_filters_ok_iff(ep, schema, rest);
        assert(forall|k: int| 0 <= k < rest.len() ==> rest[k] == fs[k + 1]);
        if spec_filters(ep, schema, fs) is Ok {
            assert forall|k: int|
                0 <= k < fs.len() implies spec_filter_term(
                ep,
                schema,
                (#[trigger] fs[k]).0,
                fs[k].1,
            ) is Ok by {
                if k > 0 {
                    assert(fs[k] == rest[k - 1]);
                }
            }
        }
        if forall|k: int|
            0 <= k < fs.len() ==> spec_filter_term(ep, schema, (#[trigger] fs[k]).0, fs[k].1) is Ok {
            assert(spec_filter_term(ep, schema, fs[0].0, fs[0].1) is Ok);
            assert forall|k: int|
                0 <= k < rest.len() implies spec_filter_term(
                ep,
                schema,
                (#[trigger] rest[k]).0,
                rest[k].1,
            ) is Ok by {
                assert(rest[k] == fs[k + 1]);
            }
            assert(spec_filters(ep, schema, rest) is Ok);
            assert(spec_filters(ep, schema, fs) is Ok);
        }
    }
}

/// A request whose `columns` reference a name that is neither an aggregate of
/// the endpoint nor a column of the dataset schema is rejected, and the
/// rejection is a malformed request (status 400).
pub proof fn lemma_unknown_column_rejected(
    ep: EndpointView,
    schema: Seq<Seq<char>>,
    p: QueryParamsView,
)
    requires
        exists|k: int|
            0 <= k < spec_column_source(ep, p).len() && !is_known_name(
                ep,
                schema,
                #[trigger] spec_column_source(ep, p)[k],
            ),
    ensures
        spec_compile(ep, schema, p) matches Err(e) && e is RequestMalformed,
{
    let names = spec_column_source(ep, p);
    lemma_projection_ok_iff(ep, schema, names);
    assert(!(spec_projection(ep, schema, names) is Ok));
}

/// Compilation succeeds exactly when every requested projection name is
/// known and every filter pair is accepted: nothing else can refuse a
/// request.
pub proof fn lemma_compile_ok_iff(ep: EndpointView, schema: Seq<Seq<char>>, p: QueryParamsView)
    ensures
        spec_compile(ep, schema, p) is Ok <==> ((forall|k: int|
            0 <= k < spec_column_source(ep, p).len() ==> is_known_name(
                ep,
                schema,
                #[trigger] spec_column_source(ep, p)[k],
            )) && (forall|k: int|
            0 <= k < p.filters.len() ==> spec_filter_term(
                ep,
                schema,
                (#[trigger] p.filters[k]).0,
                p.filters[k].1,
            ) is Ok)),
{
    let names = spec_column_source(ep, p);
    lemma_projection_ok_iff(ep, schema, names);
    lemma_filters_ok_iff(ep, schema, p.filters);
}

/// Compiling the same endpoint, schema and parameters twice yields the same
/// statement (or the same rejection), byte for byte.
pub proof fn lemma_compile_deterministic(
    ep: EndpointView,
    schema: Seq<Seq<char>>,
    p: QueryParamsView,
    r1: Result<Seq<char>, CompileErrorView>,
    r2: Result<Seq<char>, CompileErrorView>,
)
    requires
        r1 == spec_compile(ep, schema, p),
        r2 == spec_compile(ep, schema, p),
    ensures
        r1 == r2,
{
}

/// A limit of 0 disables the `LIMIT` clause, and with it every offset: the
/// statement carries neither `LIMIT` nor `OFFSET`.
pub proof fn lemma_limit_zero(
    ep: EndpointView,
    schema: Seq<Seq<char>>,
    p: QueryParamsView,
    q: QueryParts,
)
    requires
        p.limit == Some(0u32),
        spec_parts(ep, schema, p) == Ok::<QueryParts, CompileErrorView>(q),
    ensures
        q.limit == 0,
        q.offset == 0,
        spec_limit_clause(q.limit) == Seq::<char>::empty(),
        spec_offset_clause(q.offset) == Seq::<char>::empty(),
{
    assert(spec_limit(p) == 0);
    assert(spec_offset(p) == 0);
}

/// An empty resolved projection projects `*` and emits no `GROUP BY`.
pub proof fn lemma_empty_projection(
    ep: EndpointView,
    schema: Seq<Seq<char>>,
    p: QueryParamsView,
    q: QueryParts,
)
    requires
        spec_column_source(ep, p).len() == 0,
        spec_parts(ep, schema, p) == Ok::<QueryParts, CompileErrorView>(q),
    ensures
        q.columns == seq!["*"@],
        q.group_by == Seq::<Seq<char>>::empty(),
        spec_group_clause(q.columns, q.group_by) == Seq::<char>::empty(),
{
}

/// `sym` is one of the five comparison symbols the operator table emits.
pub open spec fn is_op_symbol(sym: Seq<char>) -> bool {
    sym == "="@ || sym == "<"@ || sym == "<="@ || sym == ">"@ || sym == ">="@
}

/// `e` is a projection entry built from the endpoint's vocabulary: an
/// aggregate rendered as `formula AS name`, or a schema column, bare or
/// renamed through the endpoint's alias for it.
pub open spec fn is_vocabulary_entry(ep: EndpointView, schema: Seq<Seq<char>>, e: Seq<char>) -> bool {
    (exists|k: int|
        0 <= k < ep.aggregates.len() && e == (#[trigger] ep.aggregates[k]).formula + " AS "@
            + ep.aggregates[k].name) || (exists|c: Seq<char>|
        #[trigger] schema.contains(c) && (e == c || (spec_get_alias(ep.columns, c) matches Some(al)
            && e == c + " AS "@ + al)))
}

/// `t` is a `WHERE` term whose identifier is a schema column.
pub open spec fn is_schema_where_term(schema: Seq<Seq<char>>, t: Seq<char>) -> bool {
    exists|c: Seq<char>, sym: Seq<char>, v: Seq<char>|
        #![auto]
        schema.contains(c) && is_op_symbol(sym) && t == spec_comparison(c, sym, v)
}

/// `t` is a `HAVING` term whose identifier is an aggregate formula of the
/// endpoint.
pub open spec fn is_aggregate_having_term(ep: EndpointView, t: Seq<char>) -> bool {
    exists|k: int, sym: Seq<char>, v: Seq<char>|
        #![auto]
        0 <= k < ep.aggregates.len() && is_op_symbol(sym) && t == spec_comparison(
            ep.aggregates[k].formula,
            sym,
            v,
        )
}

/// An aggregate the lookup returns is a member of the aggregate list, under
/// the looked-up name.
pub proof fn lemma_get_aggregate_member(aggs: Seq<AggregateView>, name: Seq<char>)
    ensures
        spec_get_aggregate(aggs, name) matches Some(a) ==> a.name == name && exists|k: int|
            0 <= k < aggs.len() && #[trigger] aggs[k] == a,
    decreases aggs.len(),
{
    if aggs.len() > 0 && !(aggs[0].name == name) {
        let rest = aggs.subrange(1, aggs.len() as int);
        lemma_get_aggregate_member(rest, name);
        match spec_get_aggregate(aggs, name) {
            Some(a) => {
                let k = choose|k: int| 0 <= k < rest.len() && #[trigger] rest[k] == a;
                assert(aggs[k + 1] == a);
            },
            None => {},
        }
    }
}

/// The operator table emits only the five comparison symbols.
pub proof fn lemma_op_symbol_range(op: Seq<char>)
    ensures
        spec_op_symbol(op) matches Some(sym) ==> is_op_symbol(sym),
{
}

/// Every identifier the projection emits belongs to the endpoint's
/// vocabulary: each projection entry is an aggregate rendering or a schema
/// column, and every member of the group-by list is a schema column.
pub proof fn lemma_projection_entries(
    ep: EndpointView,
    schema: Seq<Seq<char>>,
    names: Seq<Seq<char>>,
)
    ensures
        spec_projection(ep, schema, names) matches Ok(pr) ==> (forall|k: int|
            0 <= k < pr.0.len() ==> is_vocabulary_entry(ep, schema, #[trigger] pr.0[k])) && (
        forall|k: int| 0 <= k < pr.1.len() ==> schema.contains(#[trigger] pr.1[k])),
    decreases names.len(),
{
    if names.len() > 0 {
        let rest = names.subrange(1, names.len() as int);
        lemma_projection_entries(ep, schema, rest);
        if spec_projection(ep, schema, names) is Ok {
            let pr = spec_projection(ep, schema, names)->Ok_0;
            let head = names[0];
            lemma_get_aggregate_member(ep.aggregates, head);
            assert(spec_project_one(ep, schema, head) is Ok);
            let one = spec_project_one(ep, schema, head)->Ok_0;
            assert(is_vocabulary_entry(ep, schema, one.0)) by {
                if spec_get_aggregate(ep.aggregates, head) is None {
                    assert(schema.contains(head));
                }
            }
            let tail = spec_projection(ep, schema, rest)->Ok_0;
            assert forall|k: int|
                0 <= k < pr.0.len() implies is_vocabulary_entry(
                ep,
                schema,
                #[trigger] pr.0[k],
            ) by {
                if k > 0 {
                    assert(pr.0[k] == tail.0[k - 1]);
                }
            }
            assert forall|k: int| 0 <= k < pr.1.len() implies schema.contains(
                #[trigger] pr.1[k],
            ) by {
                if spec_get_aggregate(ep.aggregates, head) is None {
                    if k > 0 {
                        assert(pr.1[k] == tail.1[k - 1]);
                    }
                } else {
                    assert(pr.1[k] == tail.1[k]);
                }
            }
        }
    }
}

/// Every `WHERE` term the filter pass emits compares a schema column, and
/// every `HAVING` term compares an aggregate formula of the endpoint.
pub proof fn lemma_filters_classified(
    ep: EndpointView,
    schema: Seq<Seq<char>>,
    fs: Seq<(Seq<char>, Seq<char>)>,
)
    ensures
        spec_filters(ep, schema, fs) matches Ok(pair) ==> (forall|k: int|
            0 <= k < pair.0.len() ==> is_schema_where_term(schema, #[trigger] pair.0[k])) && (
        forall|k: int|
            0 <= k < pair.1.len() ==> is_aggregate_having_term(ep, #[trigger] pair.1[k])),
    decreases fs.len(),
{
    if fs.len() > 0 {
        let rest = fs.subrange(1, fs.len() as int);
        lemma_filters_classified(ep, schema, rest);
        if spec_filters(ep, schema, fs) is Ok {
            let pair = spec_filters(ep, schema, fs)->Ok_0;
            let term = spec_filter_term(ep, schema, fs[0].0, fs[0].1)->Ok_0;
            let tail = spec_filters(ep, schema, rest)->Ok_0;
            match spec_parse_filter_key(ep, fs[0].0) {
                FilterKeyView::Pair { column, op } => {
                    lemma_op_symbol_range(op);
                    match term {
                        PlacementView::WhereTerm(t) => {
                            let sym = spec_op_symbol(op)->Some_0;
                            assert(schema.contains(column) && is_op_symbol(sym) && t
                                == spec_comparison(column, sym, fs[0].1));
                            assert(is_schema_where_term(schema, t));
                        },
                        PlacementView::HavingTerm(t) => {
                            lemma_get_aggregate_member(ep.aggregates, column);
                            let sym = spec_op_symbol(op)->Some_0;
                            let a = spec_get_aggregate(ep.aggregates, column)->Some_0;
                            let k = choose|k: int|
                                0 <= k < ep.aggregates.len() && #[trigger] ep.aggregates[k] == a;
                            assert(0 <= k < ep.aggregates.len() && is_op_symbol(sym) && t
                                == spec_comparison(ep.aggregates[k].formula, sym, fs[0].1));
                            assert(is_aggregate_having_term(ep, t));
                        },
                        PlacementView::NoTerm => {},
                    }
                },
                _ => {},
            }
            assert forall|k: int| 0 <= k < pair.0.len() implies is_schema_where_term(
                schema,
                #[trigger] pair.0[k],
            ) by {
                match term {
                    PlacementView::WhereTerm(t) => {
                        if k > 0 {
                            assert(pair.0[k] == tail.0[k - 1]);
                        }
                    },
                    PlacementView::HavingTerm(t) => {
                        assert(pair.0[k] == tail.0[k]);
                    },
                    PlacementView::NoTerm => {
                        assert(pair.0[k] == tail.0[k]);
                    },
                }
            }
            assert forall|k: int| 0 <= k < pair.1.len() implies is_aggregate_having_term(
                ep,
                #[trigger] pair.1[k],
            ) by {
                match term {
                    PlacementView::HavingTerm(t) => {
                        if k > 0 {
                            assert(pair.1[k] == tail.1[k - 1]);
                        }
                    },
                    PlacementView::WhereTerm(t) => {
                        assert(pair.1[k] == tail.1[k]);
                    },
                    PlacementView::NoTerm => {
                        assert(pair.1[k] == tail.1[k]);
                    },
                }
            }
        }
    }
}

/// Every identifier appearing unquoted in the statement's `SELECT`, `WHERE`
/// and `GROUP BY` lists belongs to the endpoint's aggregates or the dataset
/// schema (and the `HAVING` list names only aggregate formulas); the one
/// exception is the bare `*` of an empty projection.
pub proof fn lemma_emitted_identifiers(
    ep: EndpointView,
    schema: Seq<Seq<char>>,
    p: QueryParamsView,
    q: QueryParts,
)
    requires
        spec_parts(ep, schema, p) == Ok::<QueryParts, CompileErrorView>(q),
    ensures
        forall|k: int| 0 <= k < q.group_by.len() ==> schema.contains(#[trigger] q.group_by[k]),
        forall|k: int|
            0 <= k < q.wheres.len() ==> is_schema_where_term(schema, #[trigger] q.wheres[k]),
        forall|k: int|
            0 <= k < q.havings.len() ==> is_aggregate_having_term(ep, #[trigger] q.havings[k]),
        spec_column_source(ep, p).len() > 0 ==> (forall|k: int|
            0 <= k < q.columns.len() ==> is_vocabulary_entry(ep, schema, #[trigger] q.columns[k])),
        spec_column_source(ep, p).len() == 0 ==> q.columns == seq!["*"@],
{
    let names = spec_column_source(ep, p);
    lemma_projection_entries(ep, schema, names);
    lemma_filters_classified(ep, schema, p.filters);
    if names.len() == 0 {
        assert(q.group_by =~= Seq::<Seq<char>>::empty());
    }
}

/// The shape of a successful projection: one entry per requested name, the
/// group-by list collects exactly the non-aggregate names, and it falls short
/// of the projection exactly when some requested name is an aggregate.
pub proof fn lemma_projection_shape(
    ep: EndpointView,
    schema: Seq<Seq<char>>,
    names: Seq<Seq<char>>,
)
    ensures
        spec_projection(ep, schema, names) matches Ok(pr) ==> pr.0.len() == names.len(),
        spec_projection(ep, schema, names) matches Ok(pr) ==> pr.1.len() <= pr.0.len(),
        spec_projection(ep, schema, names) matches Ok(pr) ==> ((pr.1.len() < pr.0.len()) <==> (
        exists|k: int| 0 <= k < names.len() && is_aggregate_name(ep, #[trigger] names[k]))),
        spec_projection(ep, schema, names) matches Ok(pr) ==> ((pr.1.len() > 0) <==> (exists|
            k: int,
        | 0 <= k < names.len() && !is_aggregate_name(ep, #[trigger] names[k]))),
    decreases names.len(),
{
    if names.len() > 0 {
        let rest = names.subrange(1, names.len() as int);
        lemma_projection_shape(ep, schema, rest);
        assert(forall|k: int| 0 <= k < rest.len() ==> rest[k] == names[k + 1]);
        if spec_projection(ep, schema, names) is Ok {
            let pr = spec_projection(ep, schema, names)->Ok_0;
            let tail = spec_projection(ep, schema, rest)->Ok_0;
            if pr.1.len() < pr.0.len() {
                if is_aggregate_name(ep, names[0]) {
                    assert(exists|k: int|
                        0 <= k < names.len() && is_aggregate_name(ep, #[trigger] names[k]));
                } else {
                    assert(tail.1.len() < tail.0.len());
                    let k = choose|k: int|
                        0 <= k < rest.len() && is_aggregate_name(ep, #[trigger] rest[k]);
                    assert(is_aggregate_name(ep, names[k + 1]));
                }
            }
            if exists|k: int| 0 <= k < names.len() && is_aggregate_name(ep, #[trigger] names[k]) {
                let k = choose|k: int|
                    0 <= k < names.len() && is_aggregate_name(ep, #[trigger] names[k]);
                if !is_aggregate_name(ep, names[0]) {
                    assert(rest[k - 1] == names[k]);
                    assert(tail.1.len() < tail.0.len());
                }
            }
            if pr.1.len() > 0 {
                if is_aggregate_name(ep, names[0]) {
                    assert(tail.1.len() > 0);
                    let k = choose|k: int|
                        0 <= k < rest.len() && !is_aggregate_name(ep, #[trigger] rest[k]);
                    assert(!is_aggregate_name(ep, names[k + 1]));
                } else {
                    assert(exists|k: int|
                        0 <= k < names.len() && !is_aggregate_name(ep, #[trigger] names[k]));
                }
            }
            if exists|k: int| 0 <= k < names.len() && !is_aggregate_name(ep, #[trigger] names[k]) {
                let k = choose|k: int|
                    0 <= k < names.len() && !is_aggregate_name(ep, #[trigger] names[k]);
                if is_aggregate_name(ep, names[0]) {
                    assert(rest[k - 1] == names[k]);
                    assert(tail.1.len() > 0);
                }
            }
        }
    }
}

/// `GROUP BY` appears in the statement exactly when at least one projected
/// element is an aggregate and at least one is a plain schema column.
pub proof fn lemma_group_by_iff(
    ep: EndpointView,
    schema: Seq<Seq<char>>,
    p: QueryParamsView,
    q: QueryParts,
)
    requires
        spec_parts(ep, schema, p) == Ok::<QueryParts, CompileErrorView>(q),
    ensures
        spec_group_clause(q.columns, q.group_by).len() > 0 <==> ((exists|k: int|
            0 <= k < spec_column_source(ep, p).len() && is_aggregate_name(
                ep,
                #[trigger] spec_column_source(ep, p)[k],
            )) && (exists|k: int|
            0 <= k < spec_column_source(ep, p).len() && !is_aggregate_name(
                ep,
                #[trigger] spec_column_source(ep, p)[k],
            ))),
{
    let names = spec_column_source(ep, p);
    if names.len() == 0 {
        assert(spec_group_clause(q.columns, q.group_by).len() == 0);
    } else {
        lemma_projection_shape(ep, schema, names);
        let pr = spec_projection(ep, schema, names)->Ok_0;
        assert(q.columns == pr.0 && q.group_by == pr.1);
        if q.group_by.len() != q.columns.len() && q.group_by.len() > 0 {
            reveal_strlit(" GROUP BY ");
            assert(spec_group_clause(q.columns, q.group_by).len() > 0);
        }
    }
}

/// The `WHERE` terms a filter sequence contributes: one comparison for each
/// pair classified against the schema, nothing for the rest.
pub open spec fn where_contrib(
    ep: EndpointView,
    schema: Seq<Seq<char>>,
    f: (Seq<char>, Seq<char>),
) -> Seq<Seq<char>> {
    match spec_filter_term(ep, schema, f.0, f.1) {
        Ok(PlacementView::WhereTerm(t)) => seq![t],
        _ => Seq::empty(),
    }
}

/// The `HAVING` terms one pair contributes: one comparison when the pair is
/// classified against an aggregate, nothing otherwise.
pub open spec fn having_contrib(
    ep: EndpointView,
    schema: Seq<Seq<char>>,
    f: (Seq<char>, Seq<char>),
) -> Seq<Seq<char>> {
    match spec_filter_term(ep, schema, f.0, f.1) {
        Ok(PlacementView::HavingTerm(t)) => seq![t],
        _ => Seq::empty(),
    }
}

/// All `WHERE` terms of a filter sequence, in input order.
pub open spec fn where_terms_of(
    ep: EndpointView,
    schema: Seq<Seq<char>>,
    fs: Seq<(Seq<char>, Seq<char>)>,
) -> Seq<Seq<char>>
    decreases fs.len(),
{
    if fs.len() == 0 {
        Seq::empty()
    } else {
        where_contrib(ep, schema, fs[0]) + where_terms_of(
            ep,
            schema,
            fs.subrange(1, fs.len() as int),
        )
    }
}

/// All `HAVING` terms of a filter sequence, in input order.
pub open spec fn having_terms_of(
    ep: EndpointView,
    schema: Seq<Seq<char>>,
    fs: Seq<(Seq<char>, Seq<char>)>,
) -> Seq<Seq<char>>
    decreases fs.len(),
{
    if fs.len() == 0 {
        Seq::empty()
    } else {
        having_contrib(ep, schema, fs[0]) + having_terms_of(
            ep,
            schema,
            fs.subrange(1, fs.len() as int),
        )
    }
}

/// No pair contributes to both lists: a filter term lands in `WHERE` or in
/// `HAVING`, never in both.
pub proof fn lemma_term_exclusive(
    ep: EndpointView,
    schema: Seq<Seq<char>>,
    f: (Seq<char>, Seq<char>),
)
    ensures
        where_contrib(ep, schema, f).len() + having_contrib(ep, schema, f).len() <= 1,
{
}

/// The filter pass emits exactly the schema-classified comparisons as
/// `WHERE` terms and exactly the aggregate-classified comparisons as
/// `HAVING` terms, each in input order.
pub proof fn lemma_filter_placement(
    ep: EndpointView,
    schema: Seq<Seq<char>>,
    fs: Seq<(Seq<char>, Seq<char>)>,
)
    ensures
        spec_filters(ep, schema, fs) matches Ok(pair) ==> pair.0 == where_terms_of(ep, schema, fs)
            && pair.1 == having_terms_of(ep, schema, fs),
    decreases fs.len(),
{
    if fs.len() > 0 {
        let rest = fs.subrange(1, fs.len() as int);
        lemma_filter_placement(ep, schema, rest);
        if spec_filters(ep, schema, fs) is Ok {
            let pair = spec_filters(ep, schema, fs)->Ok_0;
            let tail = spec_filters(ep, schema, rest)->Ok_0;
            let term = spec_filter_term(ep, schema, fs[0].0, fs[0].1)->Ok_0;
            match term {
                PlacementView::WhereTerm(t) => {
                    assert(pair.1 =~= having_contrib(ep, schema, fs[0]) + tail.1);
                },
                PlacementView::HavingTerm(t) => {
                    assert(pair.0 =~= where_contrib(ep, schema, fs[0]) + tail.0);
                },
                PlacementView::NoTerm => {
                    assert(pair.0 =~= where_contrib(ep, schema, fs[0]) + tail.0);
                    assert(pair.1 =~= having_contrib(ep, schema, fs[0]) + tail.1);
                },
            }
        }
    }
}

/// Removing one pair removes exactly its own contribution from each list's
/// multiset.
proof fn lemma_terms_remove(
    ep: EndpointView,
    schema: Seq<Seq<char>>,
    fs: Seq<(Seq<char>, Seq<char>)>,
    j: int,
)
    requires
        0 <= j < fs.len(),
    ensures
        where_terms_of(ep, schema, fs).to_multiset() == where_terms_of(
            ep,
            schema,
            fs.remove(j),
        ).to_multiset().add(where_contrib(ep, schema, fs[j]).to_multiset()),
        having_terms_of(ep, schema, fs).to_multiset() == having_terms_of(
            ep,
            schema,
            fs.remove(j),
        ).to_multiset().add(having_contrib(ep, schema, fs[j]).to_multiset()),
    decreases fs.len(),
{
    broadcast use vstd::seq_lib::group_to_multiset_ensures;
    broadcast use vstd::multiset::group_multiset_axioms;

    let rest = fs.subrange(1, fs.len() as int);
    let wc0 = where_contrib(ep, schema, fs[0]);
    let hc0 = having_contrib(ep, schema, fs[0]);
    if j == 0 {
        assert(fs.remove(0) =~= rest);
        vstd::seq_lib::lemma_multiset_commutative(wc0, where_terms_of(ep, schema, rest));
        vstd::seq_lib::lemma_multiset_commutative(hc0, having_terms_of(ep, schema, rest));
        assert(wc0.to_multiset().add(where_terms_of(ep, schema, rest).to_multiset())
            =~= where_terms_of(ep, schema, rest).to_multiset().add(wc0.to_multiset()));
        assert(hc0.to_multiset().add(having_terms_of(ep, schema, rest).to_multiset())
            =~= having_terms_of(ep, schema, rest).to_multiset().add(hc0.to_multiset()));
    } else {
        lemma_terms_remove(ep, schema, rest, j - 1);
        let removed = fs.remove(j);
        assert(removed[0] == fs[0]);
        assert(removed.subrange(1, removed.len() as int) =~= rest.remove(j - 1));
        assert(fs[j] == rest[j - 1]);
        vstd::seq_lib::lemma_multiset_commutative(wc0, where_terms_of(ep, schema, rest));
        vstd::seq_lib::lemma_multiset_commutative(
            wc0,
            where_terms_of(ep, schema, rest.remove(j - 1)),
        );
        vstd::seq_lib::lemma_multiset_commutative(hc0, having_terms_of(ep, schema, rest));
        vstd::seq_lib::lemma_multiset_commutative(
            hc0,
            having_terms_of(ep, schema, rest.remove(j - 1)),
        );
        assert(where_terms_of(ep, schema, fs).to_multiset() =~= where_terms_of(
            ep,
            schema,
            removed,
        ).to_multiset().add(where_contrib(ep, schema, fs[j]).to_multiset()));
        assert(having_terms_of(ep, schema, fs).to_multiset() =~= having_terms_of(
            ep,
            schema,
            removed,
        ).to_multiset().add(having_contrib(ep, schema, fs[j]).to_multiset()));
    }
}

/// Filter sequences that are permutations of each other contribute the same
/// multisets of `WHERE` and `HAVING` terms.
proof fn lemma_terms_permutation(
    ep: EndpointView,
    schema: Seq<Seq<char>>,
    fs1: Seq<(Seq<char>, Seq<char>)>,
    fs2: Seq<(Seq<char>, Seq<char>)>,
)
    requires
        fs1.to_multiset() == fs2.to_multiset(),
    ensures
        where_terms_of(ep, schema, fs1).to_multiset() == where_terms_of(
            ep,
            schema,
            fs2,
        ).to_multiset(),
        having_terms_of(ep, schema, fs1).to_multiset() == having_terms_of(
            ep,
            schema,
            fs2,
        ).to_multiset(),
    decreases fs1.len(),
{
    broadcast use vstd::seq_lib::group_to_multiset_ensures;
    broadcast use vstd::multiset::group_multiset_axioms;

    vstd::seq_lib::to_multiset_len(fs1);
    vstd::seq_lib::to_multiset_len(fs2);
    if fs1.len() == 0 {
        assert(fs2.len() == 0);
    } else {
        let x = fs1[0];
        assert(fs1.contains(x));
        assert(fs1.to_multiset().count(x) > 0);
        assert(fs2.contains(x));
        let j = choose|j: int| 0 <= j < fs2.len() && fs2[j] == x;
        let rest1 = fs1.subrange(1, fs1.len() as int);
        assert(fs1.remove(0) =~= rest1);
        assert(rest1.to_multiset() == fs1.to_multiset().remove(x));
        assert(fs2.remove(j).to_multiset() == fs2.to_multiset().remove(x));
        lemma_terms_permutation(ep, schema, rest1, fs2.remove(j));
        lemma_terms_remove(ep, schema, fs2, j);
        vstd::seq_lib::lemma_multiset_commutative(
            where_contrib(ep, schema, x),
            where_terms_of(ep, schema, rest1),
        );
        vstd::seq_lib::lemma_multiset_commutative(
            having_contrib(ep, schema, x),
            having_terms_of(ep, schema, rest1),
        );
        assert(where_terms_of(ep, schema, fs1).to_multiset() =~= where_terms_of(
            ep,
            schema,
            fs2,
        ).to_multiset());
        assert(having_terms_of(ep, schema, fs1).to_multiset() =~= having_terms_of(
            ep,
            schema,
            fs2,
        ).to_multiset());
    }
}

/// Reordering the filter pairs of a request changes the statement only in the
/// order of its `WHERE` and `HAVING` terms: projection, grouping, ordering,
/// pagination and dataset are untouched, and the two term lists keep the same
/// members with the same multiplicities.
pub proof fn lemma_filter_reorder(
    ep: EndpointView,
    schema: Seq<Seq<char>>,
    p1: QueryParamsView,
    p2: QueryParamsView,
    q1: QueryParts,
    q2: QueryParts,
)
    requires
        p2.columns == p1.columns,
        p2.order == p1.order,
        p2.limit == p1.limit,
        p2.page == p1.page,
        p2.filters.to_multiset() == p1.filters.to_multiset(),
        spec_parts(ep, schema, p1) == Ok::<QueryParts, CompileErrorView>(q1),
        spec_parts(ep, schema, p2) == Ok::<QueryParts, CompileErrorView>(q2),
    ensures
        q2.columns == q1.columns,
        q2.group_by == q1.group_by,
        q2.orders == q1.orders,
        q2.limit == q1.limit,
        q2.offset == q1.offset,
        q2.dataset == q1.dataset,
        q2.wheres.to_multiset() == q1.wheres.to_multiset(),
        q2.havings.to_multiset() == q1.havings.to_multiset(),
{
    assert(spec_column_source(ep, p2) == spec_column_source(ep, p1));
    lemma_filter_placement(ep, schema, p1.filters);
    lemma_filter_placement(ep, schema, p2.filters);
    lemma_terms_permutation(ep, schema, p1.filters, p2.filters);
}

} // verus!
