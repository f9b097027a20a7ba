//! The SQL compiler: combines an endpoint specification, the parsed request
//! parameters, and the resolved dataset schema into a single SQL statement.
//!
//! The pipeline is fixed: projection, filter classification, ordering,
//! pagination, assembly. Every stage is specified by a spec function over
//! character sequences, and `compile_sql` returns exactly what the model
//! `spec_compile` describes.
//!
//! A requested name is projected as an aggregate when the endpoint names it,
//! else as a schema column (with the endpoint's output alias when one is
//! declared), else the request is rejected. Schema-classified filters land in
//! `WHERE`; aggregate-classified filters land in `HAVING`. `HAVING` terms are
//! joined with `,` and a `page` of 0 yields one full page of offset: both are
//! deliberate quirks, kept because deployed clients depend on them.

use vstd::prelude::*;
use vstd::string::StrSliceExecFns;
use vstd::string::StringExecFns;

use crate::endpoint::Endpoint;
use crate::endpoint::EndpointView;
use crate::endpoint::spec_get_aggregate;
use crate::endpoint::spec_get_alias;
use crate::endpoint::spec_get_filter;
use crate::params::QueryParams;
use crate::params::QueryParamsView;
use crate::params::spec_limit;
use crate::params::spec_offset;
use crate::strutil::contains_str;
use crate::strutil::clone_strings;
use crate::strutil::join_with;
use crate::strutil::nonempty_parts;
use crate::strutil::rfind_pair;
use crate::strutil::spec_dec;
use crate::strutil::spec_join;
use crate::strutil::spec_nonempty;
use crate::strutil::spec_rfind_pair;
use crate::strutil::spec_split;
use crate::strutil::spec_split2;
use crate::strutil::spec_starts_with;
use crate::strutil::split_char;
use crate::strutil::split_char2;
use crate::strutil::str_eq;
use crate::strutil::str_starts_with;
use crate::strutil::u64_to_dec;

verus! {

/// A request the compiler refuses.
///
/// `RequestMalformed` is the caller's fault (an unknown column, an unknown
/// filter operator, a malformed filter key) and maps to status 400.
/// `EndpointMisconfigured` is an internal inconsistency in the endpoint's
/// filter formulas and maps to status 500.
#[derive(Debug, PartialEq)]
pub enum CompileError {
    RequestMalformed { message: String },
    EndpointMisconfigured { message: String },
}

pub enum CompileErrorView {
    RequestMalformed { message: Seq<char> },
    EndpointMisconfigured { message: Seq<char> },
}

impl View for CompileError {
    type V = CompileErrorView;

    open spec fn view(&self) -> CompileErrorView {
        match self {
            CompileError::RequestMalformed { message } => CompileErrorView::RequestMalformed {
                message: message@,
            },
            CompileError::EndpointMisconfigured { message } => (
            CompileErrorView::EndpointMisconfigured { message: message@ }),
        }
    }
}

/// The user-visible message of a compiler error.
pub open spec fn spec_error_message(e: CompileErrorView) -> Seq<char> {
    match e {
        CompileErrorView::RequestMalformed { message } => message,
        CompileErrorView::EndpointMisconfigured { message } => message,
    }
}

impl CompileError {
    /// The HTTP status this error maps to: 400 for a malformed request, 500
    /// for a misconfigured endpoint.
    pub fn status_code(&self) -> (r: u16)
        ensures
            self@ is RequestMalformed ==> r == 400,
            self@ is EndpointMisconfigured ==> r == 500,
    {
        match self {
            CompileError::RequestMalformed { .. } => 400,
            CompileError::EndpointMisconfigured { .. } => 500,
        }
    }

    /// The user-visible message of this error.
    pub fn message(&self) -> (r: &String)
        ensures
            r@ == spec_error_message(self@),
    {
        match self {
            CompileError::RequestMalformed { message } => message,
            CompileError::EndpointMisconfigured { message } => message,
        }
    }
}

/// Message for a request that references an unknown field.
pub open spec fn msg_field_missing(c: Seq<char>) -> Seq<char> {
    "The field "@ + c + " does not exist"@
}

/// Message for a structured filter key with too many parts.
pub open spec fn msg_bad_statement(key: Seq<char>) -> Seq<char> {
    "Not valid statement "@ + key
}

/// Message for an unknown filter operator.
pub open spec fn msg_bad_operator(op: Seq<char>) -> Seq<char> {
    "Not valid filter operator "@ + op
}

/// Message for an endpoint filter whose formula lacks the `__` separator.
pub open spec fn msg_filter_error(key: Seq<char>) -> Seq<char> {
    "Filtering "@ + key + " contains an error"@
}

fn field_missing_error(c: &str) -> (e: CompileError)
    ensures
        e@ == (CompileErrorView::RequestMalformed { message: msg_field_missing(c@) }),
{
    let mut m = "The field ".to_owned();
    m.append(c);
    m.append(" does not exist");
    CompileError::RequestMalformed { message: m }
}

fn bad_statement_error(key: &str) -> (e: CompileError)
    ensures
        e@ == (CompileErrorView::RequestMalformed { message: msg_bad_statement(key@) }),
{
    let mut m = "Not valid statement ".to_owned();
    m.append(key);
    CompileError::RequestMalformed { message: m }
}

fn bad_operator_error(op: &str) -> (e: CompileError)
    ensures
        e@ == (CompileErrorView::RequestMalformed { message: msg_bad_operator(op@) }),
{
    let mut m = "Not valid filter operator ".to_owned();
    m.append(op);
    CompileError::RequestMalformed { message: m }
}

fn filter_formula_error(key: &str) -> (e: CompileError)
    ensures
        e@ == (CompileErrorView::EndpointMisconfigured { message: msg_filter_error(key@) }),
{
    let mut m = "Filtering ".to_owned();
    m.append(key);
    m.append(" contains an error");
    CompileError::EndpointMisconfigured { message: m }
}

/// The SQL comparison symbol of a request operator token, through the closed
/// table: `eq` and the empty token mean `=`; `lt`, `lte`/`lteq`, `gt`,
/// `gte`/`gteq` mean `<`, `<=`, `>`, `>=`; anything else is refused.
pub open spec fn spec_op_symbol(op: Seq<char>) -> Option<Seq<char>> {
    if op == "eq"@ || op.len() == 0 {
        Some("="@)
    } else if op == "lt"@ {
        Some("<"@)
    } else if op == "lte"@ || op == "lteq"@ {
        Some("<="@)
    } else if op == "gt"@ {
        Some(">"@)
    } else if op == "gte"@ || op == "gteq"@ {
        Some(">="@)
    } else {
        None
    }
}

fn op_symbol(op: &str) -> (r: Option<String>)
    ensures
        match r {
            Some(s) => spec_op_symbol(op@) == Some(s@),
            None => spec_op_symbol(op@) is None,
        },
{
    if str_eq(op, "eq") || op.unicode_len() == 0 {
        Some("=".to_owned())
    } else if str_eq(op, "lt") {
        Some("<".to_owned())
    } else if str_eq(op, "lte") || str_eq(op, "lteq") {
        Some("<=".to_owned())
    } else if str_eq(op, "gt") {
        Some(">".to_owned())
    } else if str_eq(op, "gte") || str_eq(op, "gteq") {
        Some(">=".to_owned())
    } else {
        None
    }
}

/// The projection entry and group-by contribution of one requested name:
/// an aggregate projects its formula under its external name and adds
/// nothing to the group-by list; a schema column projects itself (renamed
/// when the endpoint declares an alias) and joins the group-by list; any
/// other name is refused.
pub open spec fn spec_project_one(
    ep: EndpointView,
    schema: Seq<Seq<char>>,
    c: Seq<char>,
) -> Result<(Seq<char>, Seq<Seq<char>>), CompileErrorView> {
    match spec_get_aggregate(ep.aggregates, c) {
        Some(a) => Ok((a.formula + " AS "@ + a.name, Seq::empty())),
        None => if schema.contains(c) {
            match spec_get_alias(ep.columns, c) {
                Some(al) => Ok((c + " AS "@ + al, seq![c])),
                None => Ok((c, seq![c])),
            }
        } else {
            Err(CompileErrorView::RequestMalformed { message: msg_field_missing(c) })
        },
    }
}

/// The projection of a list of requested names: the emitted projection
/// entries and the group-by list, or the first rejection, in request order.
pub open spec fn spec_projection(
    ep: EndpointView,
    schema: Seq<Seq<char>>,
    names: Seq<Seq<char>>,
) -> Result<(Seq<Seq<char>>, Seq<Seq<char>>), CompileErrorView>
    decreases names.len(),
{
    if names.len() == 0 {
        Ok((Seq::empty(), Seq::empty()))
    } else {
        match spec_project_one(ep, schema, names[0]) {
            Err(e) => Err(e),
            Ok((entry, grp)) => match spec_projection(
                ep,
                schema,
                names.subrange(1, names.len() as int),
            ) {
                Err(e) => Err(e),
                Ok((cols, group_by)) => Ok((seq![entry] + cols, grp + group_by)),
            },
        }
    }
}

fn project_one(ep: &Endpoint, schema: &Vec<String>, c: &str) -> (r: Result<
    (String, Option<String>),
    CompileError,
>)
    ensures
        match r {
            Ok(p) => spec_project_one(ep@, schema.deep_view(), c@) == Ok::<
                _,
                CompileErrorView,
            >((p.0@, match p.1 {
                Some(g) => seq![g@],
                None => Seq::empty(),
            })),
            Err(e) => spec_project_one(ep@, schema.deep_view(), c@) == Err::<
                (Seq<char>, Seq<Seq<char>>),
                _,
            >(e@),
        },
{
    match ep.get_aggregate_column(c) {
        Some(agg) => {
            let mut entry = agg.formula.clone();
            entry.append(" AS ");
            entry.append(agg.name.as_str());
            Ok((entry, None))
        },
        None => {
            if contains_str(schema, c) {
                match ep.get_alias_column(c) {
                    Some(al) => {
                        let mut entry = c.to_owned();
                        entry.append(" AS ");
                        entry.append(al.as_str());
                        Ok((entry, Some(c.to_owned())))
                    },
                    None => Ok((c.to_owned(), Some(c.to_owned()))),
                }
            } else {
                Err(field_missing_error(c))
            }
        },
    }
}

fn project_from(ep: &Endpoint, schema: &Vec<String>, names: &Vec<String>, i: usize) -> (r: Result<
    (Vec<String>, Vec<String>),
    CompileError,
>)
    requires
        i <= names.len(),
    ensures
        match r {
            Ok(p) => spec_projection(
                ep@,
                schema.deep_view(),
                names.deep_view().subrange(i as int, names.len() as int),
            ) == Ok::<_, CompileErrorView>((p.0.deep_view(), p.1.deep_view())),
            Err(e) => spec_projection(
                ep@,
                schema.deep_view(),
                names.deep_view().subrange(i as int, names.len() as int),
            ) == Err::<(Seq<Seq<char>>, Seq<Seq<char>>), _>(e@),
        },
    decreases names.len() - i,
{
    let ghost whole = names.deep_view().subrange(i as int, names.len() as int);
    if i == names.len() {
        let cols: Vec<String> = Vec::new();
        let group_by: Vec<String> = Vec::new();
        proof {
            assert(cols.deep_view() =~= Seq::<Seq<char>>::empty());
            assert(group_by.deep_view() =~= Seq::<Seq<char>>::empty());
        }
        Ok((cols, group_by))
    } else {
        proof {
            assert(whole.subrange(1, whole.len() as int) =~= names.deep_view().subrange(
                i + 1,
                names.len() as int,
            ));
            assert(whole[0] == names.deep_view()[i as int]);
        }
        match project_one(ep, schema, names[i].as_str()) {
            Err(e) => Err(e),
            Ok((entry, grp)) => {
                match project_from(ep, schema, names, i + 1) {
                    Err(e) => Err(e),
                    Ok((mut cols, mut group_by)) => {
                        let ghost cols_prior = cols.deep_view();
                        let ghost group_prior = group_by.deep_view();
                        cols.insert(0, entry);
                        proof {
                            assert(cols.deep_view() =~~= seq![entry@] + cols_prior);
                        }
                        match grp {
                            Some(g) => {
                                group_by.insert(0, g);
                                proof {
                                    assert(group_by.deep_view() =~~= seq![g@] + group_prior);
                                }
                            },
                            None => {
                                proof {
                                    assert(group_by.deep_view() =~~= Seq::<
                                        Seq<char>,
                                    >::empty() + group_prior);
                                }
                            },
                        }
                        Ok((cols, group_by))
                    },
                }
            },
        }
    }
}

/// A parsed filter key: the underlying column and operator tokens, a key the
/// request quietly ignores, or a rejection.
pub enum FilterKeyView {
    Pair { column: Seq<char>, op: Seq<char> },
    Skip,
    Fail(CompileErrorView),
}

/// Executable form of a parsed filter key.
pub enum ParsedFilterKey {
    Pair { column: String, op: String },
    Skip,
    Fail(CompileError),
}

impl View for ParsedFilterKey {
    type V = FilterKeyView;

    open spec fn view(&self) -> FilterKeyView {
        match self {
            ParsedFilterKey::Pair { column, op } => FilterKeyView::Pair {
                column: column@,
                op: op@,
            },
            ParsedFilterKey::Skip => FilterKeyView::Skip,
            ParsedFilterKey::Fail(e) => FilterKeyView::Fail(e@),
        }
    }
}

/// How one query key names a filter. A key of the structured form
/// `filter[column][op]` is split on the brackets: more than three non-empty
/// parts is a malformed statement; a missing column or operator part is the
/// empty token. Any other key either matches an endpoint filter alias, whose
/// formula is split at the rightmost `__` into column and operator (a formula
/// without the separator is a misconfiguration), or is quietly ignored.
pub open spec fn spec_parse_filter_key(ep: EndpointView, key: Seq<char>) -> FilterKeyView {
    if spec_starts_with(key, "filter["@) {
        let parts = spec_nonempty(spec_split2(key, '[', ']'));
        if parts.len() > 3 {
            FilterKeyView::Fail(
                CompileErrorView::RequestMalformed { message: msg_bad_statement(key) },
            )
        } else {
            FilterKeyView::Pair {
                column: if parts.len() >= 2 {
                    parts[1]
                } else {
                    Seq::empty()
                },
                op: if parts.len() >= 3 {
                    parts[2]
                } else {
                    Seq::empty()
                },
            }
        }
    } else {
        match spec_get_filter(ep.filters, key) {
            Some(f) => {
                let i = spec_rfind_pair(f.formula, '_');
                if i < 0 {
                    FilterKeyView::Fail(
                        CompileErrorView::EndpointMisconfigured { message: msg_filter_error(key) },
                    )
                } else {
                    FilterKeyView::Pair {
                        column: f.formula.subrange(0, i),
                        op: f.formula.subrange(i + 2, f.formula.len() as int),
                    }
                }
            },
            None => FilterKeyView::Skip,
        }
    }
}

fn parse_filter_key(ep: &Endpoint, key: &str) -> (r: ParsedFilterKey)
    ensures
        r@ == spec_parse_filter_key(ep@, key@),
{
    if str_starts_with(key, "filter[") {
        let raw = split_char2(key, '[', ']');
        let parts = nonempty_parts(&raw);
        if parts.len() > 3 {
            ParsedFilterKey::Fail(bad_statement_error(key))
        } else {
            let column = if parts.len() >= 2 {
                parts[1].clone()
            } else {
                String::new()
            };
            let op = if parts.len() >= 3 {
                parts[2].clone()
            } else {
                String::new()
            };
            ParsedFilterKey::Pair { column, op }
        }
    } else {
        match ep.get_filter_statement(key) {
            Some(f) => {
                match rfind_pair(f.formula.as_str(), '_') {
                    None => ParsedFilterKey::Fail(filter_formula_error(key)),
                    Some(i) => {
                        let n = f.formula.as_str().unicode_len();
                        let column = f.formula.as_str().substring_char(0, i).to_owned();
                        let op = f.formula.as_str().substring_char(i + 2, n).to_owned();
                        ParsedFilterKey::Pair { column, op }
                    },
                }
            },
            None => ParsedFilterKey::Skip,
        }
    }
}

/// Where one filter term lands: in the `WHERE` list, in the `HAVING` list,
/// or nowhere (an ignored key).
pub enum PlacementView {
    WhereTerm(Seq<char>),
    HavingTerm(Seq<char>),
    NoTerm,
}

/// Executable form of one filter term's placement.
pub enum Placement {
    WhereTerm(String),
    HavingTerm(String),
    NoTerm,
}

impl View for Placement {
    type V = PlacementView;

    open spec fn view(&self) -> PlacementView {
        match self {
            Placement::WhereTerm(s) => PlacementView::WhereTerm(s@),
            Placement::HavingTerm(s) => PlacementView::HavingTerm(s@),
            Placement::NoTerm => PlacementView::NoTerm,
        }
    }
}

/// The SQL comparison `column op 'value'`, with the value wrapped in single
/// quotes and not escaped (a deliberate quirk; a value holding a quote
/// breaks the statement).
pub open spec fn spec_comparison(column: Seq<char>, sym: Seq<char>, value: Seq<char>) -> Seq<
    char,
> {
    column + " "@ + sym + " '"@ + value + "'"@
}

/// The classification of one query pair: an aggregate-named column becomes a
/// `HAVING` term over the aggregate's formula; a schema column becomes a
/// `WHERE` term; an ignored key contributes nothing; anything else is
/// refused, exactly as `spec_parse_filter_key` and `spec_op_symbol` say.
pub open spec fn spec_filter_term(
    ep: EndpointView,
    schema: Seq<Seq<char>>,
    key: Seq<char>,
    value: Seq<char>,
) -> Result<PlacementView, CompileErrorView> {
    match spec_parse_filter_key(ep, key) {
        FilterKeyView::Skip => Ok(PlacementView::NoTerm),
        FilterKeyView::Fail(e) => Err(e),
        FilterKeyView::Pair { column, op } => match spec_op_symbol(op) {
            None => Err(CompileErrorView::RequestMalformed { message: msg_bad_operator(op) }),
            Some(sym) => match spec_get_aggregate(ep.aggregates, column) {
                Some(a) => Ok(PlacementView::HavingTerm(spec_comparison(a.formula, sym, value))),
                None => if schema.contains(column) {
                    Ok(PlacementView::WhereTerm(spec_comparison(column, sym, value)))
                } else {
                    Err(CompileErrorView::RequestMalformed { message: msg_field_missing(column) })
                },
            },
        },
    }
}

fn comparison(column: &str, sym: &str, value: &str) -> (r: String)
    ensures
        r@ == spec_comparison(column@, sym@, value@),
{
    let mut s = column.to_owned();
    s.append(" ");
    s.append(sym);
    s.append(" '");
    s.append(value);
    s.append("'");
    s
}

fn filter_term(ep: &Endpoint, schema: &Vec<String>, key: &str, value: &str) -> (r: Result<
    Placement,
    CompileError,
>)
    ensures
        match r {
            Ok(p) => spec_filter_term(ep@, schema.deep_view(), key@, value@) == Ok::<
                _,
                CompileErrorView,
            >(p@),
            Err(e) => spec_filter_term(ep@, schema.deep_view(), key@, value@) == Err::<
                PlacementView,
                _,
            >(e@),
        },
{
    match parse_filter_key(ep, key) {
        ParsedFilterKey::Skip => Ok(Placement::NoTerm),
        ParsedFilterKey::Fail(e) => Err(e),
        ParsedFilterKey::Pair { column, op } => {
            match op_symbol(op.as_str()) {
                None => Err(bad_operator_error(op.as_str())),
                Some(sym) => {
                    match ep.get_aggregate_column(column.as_str()) {
                        Some(a) => Ok(
                            Placement::HavingTerm(
                                comparison(a.formula.as_str(), sym.as_str(), value),
                            ),
                        ),
                        None => {
                            if contains_str(schema, column.as_str()) {
                                Ok(
                                    Placement::WhereTerm(
                                        comparison(column.as_str(), sym.as_str(), value),
                                    ),
                                )
                            } else {
                                Err(field_missing_error(column.as_str()))
                            }
                        },
                    }
                },
            }
        },
    }
}

/// The `WHERE` and `HAVING` lists of a filter sequence, or the first
/// rejection, in input order.
pub open spec fn spec_filters(
    ep: EndpointView,
    schema: Seq<Seq<char>>,
    fs: Seq<(Seq<char>, Seq<char>)>,
) -> Result<(Seq<Seq<char>>, Seq<Seq<char>>), CompileErrorView>
    decreases fs.len(),
{
    if fs.len() == 0 {
        Ok((Seq::empty(), Seq::empty()))
    } else {
        match spec_filter_term(ep, schema, fs[0].0, fs[0].1) {
            Err(e) => Err(e),
            Ok(p) => match spec_filters(ep, schema, fs.subrange(1, fs.len() as int)) {
                Err(e) => Err(e),
                Ok((ws, hs)) => match p {
                    PlacementView::WhereTerm(t) => Ok((seq![t] + ws, hs)),
                    PlacementView::HavingTerm(t) => Ok((ws, seq![t] + hs)),
                    PlacementView::NoTerm => Ok((ws, hs)),
                },
            },
        }
    }
}

fn filters_from(
    ep: &Endpoint,
    schema: &Vec<String>,
    fs: &Vec<(String, String)>,
    i: usize,
) -> (r: Result<(Vec<String>, Vec<String>), CompileError>)
    requires
        i <= fs.len(),
    ensures
        match r {
            Ok(p) => spec_filters(
                ep@,
                schema.deep_view(),
                fs.deep_view().subrange(i as int, fs.len() as int),
            ) == Ok::<_, CompileErrorView>((p.0.deep_view(), p.1.deep_view())),
            Err(e) => spec_filters(
                ep@,
                schema.deep_view(),
                fs.deep_view().subrange(i as int, fs.len() as int),
            ) == Err::<(Seq<Seq<char>>, Seq<Seq<char>>), _>(e@),
        },
    decreases fs.len() - i,
{
    let ghost whole = fs.deep_view().subrange(i as int, fs.len() as int);
    if i == fs.len() {
        let ws: Vec<String> = Vec::new();
        let hs: Vec<String> = Vec::new();
        proof {
            assert(ws.deep_view() =~= Seq::<Seq<char>>::empty());
            assert(hs.deep_view() =~= Seq::<Seq<char>>::empty());
        }
        Ok((ws, hs))
    } else {
        proof {
            assert(whole.subrange(1, whole.len() as int) =~= fs.deep_view().subrange(
                i + 1,
                fs.len() as int,
            ));
            assert(whole[0] == fs.deep_view()[i as int]);
        }
        match filter_term(ep, schema, fs[i].0.as_str(), fs[i].1.as_str()) {
            Err(e) => Err(e),
            Ok(p) => {
                match filters_from(ep, schema, fs, i + 1) {
                    Err(e) => Err(e),
                    Ok((mut ws, mut hs)) => {
                        let ghost ws_prior = ws.deep_view();
                        let ghost hs_prior = hs.deep_view();
                        match p {
                            Placement::WhereTerm(t) => {
                                ws.insert(0, t);
                                proof {
                                    assert(ws.deep_view() =~~= seq![t@] + ws_prior);
                                }
                            },
                            Placement::HavingTerm(t) => {
                                hs.insert(0, t);
                                proof {
                                    assert(hs.deep_view() =~~= seq![t@] + hs_prior);
                                }
                            },
                            Placement::NoTerm => {},
                        }
                        Ok((ws, hs))
                    },
                }
            },
        }
    }
}

/// One ordering token: a leading `-` turns into a ` DESC` suffix, a leading
/// `+` is stripped, anything else is used verbatim.
pub open spec fn spec_order_term(t: Seq<char>) -> Seq<char> {
    if t.len() > 0 && t[0] == '-' {
        t.subrange(1, t.len() as int) + " DESC"@
    } else if t.len() > 0 && t[0] == '+' {
        t.subrange(1, t.len() as int)
    } else {
        t
    }
}

/// The `ORDER BY` terms of a request: the comma-separated tokens of `order`,
/// each rendered by `spec_order_term`; absent `order` means none.
pub open spec fn spec_orders(order: Option<Seq<char>>) -> Seq<Seq<char>> {
    match order {
        None => Seq::empty(),
        Some(s) => spec_split(s, ',').map_values(|t: Seq<char>| spec_order_term(t)),
    }
}

fn order_term(t: &str) -> (r: String)
    ensures
        r@ == spec_order_term(t@),
{
    let n = t.unicode_len();
    if n > 0 && t.get_char(0) == '-' {
        let mut s = t.substring_char(1, n).to_owned();
        s.append(" DESC");
        s
    } else if n > 0 && t.get_char(0) == '+' {
        t.substring_char(1, n).to_owned()
    } else {
        t.to_owned()
    }
}

fn order_terms(order: &Option<String>) -> (r: Vec<String>)
    ensures
        r.deep_view() == spec_orders(order.deep_view()),
{
    match order {
        None => {
            let r: Vec<String> = Vec::new();
            proof {
                assert(r.deep_view() =~= Seq::<Seq<char>>::empty());
            }
            r
        },
        Some(s) => {
            let tokens = split_char(s.as_str(), ',');
            let mut r: Vec<String> = Vec::new();
            let mut i: usize = 0;
            proof {
                assert(r.deep_view() =~~= tokens.deep_view().subrange(0, 0).map_values(
                    |t: Seq<char>| spec_order_term(t),
                ));
            }
            while i < tokens.len()
                invariant
                    i <= tokens.len(),
                    tokens.deep_view() == spec_split(s@, ','),
                    r.deep_view() == tokens.deep_view().subrange(0, i as int).map_values(
                        |t: Seq<char>| spec_order_term(t),
                    ),
                decreases tokens.len() - i,
            {
                let ghost prior = r.deep_view();
                r.push(order_term(tokens[i].as_str()));
                proof {
                    let mapped = tokens.deep_view().subrange(0, i + 1).map_values(
                        |t: Seq<char>| spec_order_term(t),
                    );
                    assert forall|k: int| 0 <= k < prior.len() + 1 implies r.deep_view()[k]
                        == mapped[k] by {
                        if k < i {
                            assert(r.deep_view()[k] == prior[k]);
                        } else {
                            assert(r.deep_view()[k] == r@[k].deep_view());
                        }
                    }
                    assert(r.deep_view() =~= mapped);
                }
                i = i + 1;
            }
            proof {
                assert(tokens.deep_view().subrange(0, tokens.len() as int) =~= tokens.deep_view());
            }
            r
        },
    }
}

/// The clause lists and scalars a statement is assembled from.
pub struct QueryParts {
    pub columns: Seq<Seq<char>>,
    pub group_by: Seq<Seq<char>>,
    pub wheres: Seq<Seq<char>>,
    pub havings: Seq<Seq<char>>,
    pub orders: Seq<Seq<char>>,
    pub limit: u32,
    pub offset: u64,
    pub dataset: Seq<char>,
}

/// The requested projection names: the comma-separated `columns` parameter
/// when present, else the endpoint's default projection.
pub open spec fn spec_column_source(ep: EndpointView, p: QueryParamsView) -> Seq<Seq<char>> {
    match p.columns {
        Some(s) => spec_split(s, ','),
        None => ep.default_columns,
    }
}

/// The compiled parts of a request, or the first rejection: projection first,
/// then filters. An empty projection source projects `*` and groups nothing.
pub open spec fn spec_parts(
    ep: EndpointView,
    schema: Seq<Seq<char>>,
    p: QueryParamsView,
) -> Result<QueryParts, CompileErrorView> {
    let names = spec_column_source(ep, p);
    let proj = if names.len() == 0 {
        Ok((seq!["*"@], Seq::<Seq<char>>::empty()))
    } else {
        spec_projection(ep, schema, names)
    };
    match proj {
        Err(e) => Err(e),
        Ok((columns, group_by)) => match spec_filters(ep, schema, p.filters) {
            Err(e) => Err(e),
            Ok((wheres, havings)) => Ok(
                QueryParts {
                    columns,
                    group_by,
                    wheres,
                    havings,
                    orders: spec_orders(p.order),
                    limit: spec_limit(p),
                    offset: spec_offset(p),
                    dataset: ep.dataset,
                },
            ),
        },
    }
}

/// The `WHERE` clause: terms joined with ` AND `, or nothing.
pub open spec fn spec_where_clause(ws: Seq<Seq<char>>) -> Seq<char> {
    if ws.len() > 0 {
        " WHERE "@ + spec_join(ws, " AND "@)
    } else {
        Seq::empty()
    }
}

/// The `GROUP BY` clause: present exactly when the group-by list is
/// non-empty and shorter than the projection (that is, at least one
/// projected element is an aggregate and at least one is a plain column).
pub open spec fn spec_group_clause(columns: Seq<Seq<char>>, group_by: Seq<Seq<char>>) -> Seq<
    char,
> {
    if group_by.len() != columns.len() && group_by.len() > 0 {
        " GROUP BY "@ + spec_join(group_by, ", "@)
    } else {
        Seq::empty()
    }
}

/// The `HAVING` clause: terms joined with `, ` (a deliberate quirk), or
/// nothing.
pub open spec fn spec_having_clause(hs: Seq<Seq<char>>) -> Seq<char> {
    if hs.len() > 0 {
        " HAVING "@ + spec_join(hs, ", "@)
    } else {
        Seq::empty()
    }
}

/// The `ORDER BY` clause, or nothing.
pub open spec fn spec_order_clause(os: Seq<Seq<char>>) -> Seq<char> {
    if os.len() > 0 {
        " ORDER BY "@ + spec_join(os, ", "@)
    } else {
        Seq::empty()
    }
}

/// The `LIMIT` clause; a limit of 0 disables it.
pub open spec fn spec_limit_clause(limit: u32) -> Seq<char> {
    if limit > 0 {
        " LIMIT "@ + spec_dec(limit as int)
    } else {
        Seq::empty()
    }
}

/// The `OFFSET` clause; an offset of 0 emits none.
pub open spec fn spec_offset_clause(offset: u64) -> Seq<char> {
    if offset > 0 {
        " OFFSET "@ + spec_dec(offset as int)
    } else {
        Seq::empty()
    }
}

/// The assembled statement: `SELECT <columns> FROM <dataset>` followed by
/// the optional clauses, in fixed order.
pub open spec fn spec_assemble(q: QueryParts) -> Seq<char> {
    "SELECT "@ + spec_join(q.columns, ", "@) + " FROM "@ + q.dataset + spec_where_clause(q.wheres)
        + spec_group_clause(q.columns, q.group_by) + spec_having_clause(q.havings)
        + spec_order_clause(q.orders) + spec_limit_clause(q.limit) + spec_offset_clause(q.offset)
}

fn where_clause(ws: &Vec<String>) -> (r: String)
    ensures
        r@ == spec_where_clause(ws.deep_view()),
{
    if ws.len() > 0 {
        let mut s = " WHERE ".to_owned();
        s.append(join_with(ws, " AND ").as_str());
        s
    } else {
        let s = String::new();
        proof {
            assert(s@ =~= Seq::<char>::empty());
        }
        s
    }
}

fn group_clause(columns: &Vec<String>, group_by: &Vec<String>) -> (r: String)
    ensures
        r@ == spec_group_clause(columns.deep_view(), group_by.deep_view()),
{
    if group_by.len() != columns.len() && group_by.len() > 0 {
        let mut s = " GROUP BY ".to_owned();
        s.append(join_with(group_by, ", ").as_str());
        s
    } else {
        let s = String::new();
        proof {
            assert(s@ =~= Seq::<char>::empty());
        }
        s
    }
}

fn having_clause(hs: &Vec<String>) -> (r: String)
    ensures
        r@ == spec_having_clause(hs.deep_view()),
{
    if hs.len() > 0 {
        let mut s = " HAVING ".to_owned();
        s.append(join_with(hs, ", ").as_str());
        s
    } else {
        let s = String::new();
        proof {
            assert(s@ =~= Seq::<char>::empty());
        }
        s
    }
}

fn order_clause(os: &Vec<String>) -> (r: String)
    ensures
        r@ == spec_order_clause(os.deep_view()),
{
    if os.len() > 0 {
        let mut s = " ORDER BY ".to_owned();
        s.append(join_with(os, ", ").as_str());
        s
    } else {
        let s = String::new();
        proof {
            assert(s@ =~= Seq::<char>::empty());
        }
        s
    }
}

fn limit_clause(limit: u32) -> (r: String)
    ensures
        r@ == spec_limit_clause(limit),
{
    if limit > 0 {
        let mut s = " LIMIT ".to_owned();
        s.append(u64_to_dec(limit as u64).as_str());
        s
    } else {
        let s = String::new();
        proof {
            assert(s@ =~= Seq::<char>::empty());
        }
        s
    }
}

fn offset_clause(offset: u64) -> (r: String)
    ensures
        r@ == spec_offset_clause(offset),
{
    if offset > 0 {
        let mut s = " OFFSET ".to_owned();
        s.append(u64_to_dec(offset).as_str());
        s
    } else {
        let s = String::new();
        proof {
            assert(s@ =~= Seq::<char>::empty());
        }
        s
    }
}

/// The statement compiled for a request, or the first rejection.
pub open spec fn spec_compile(
    ep: EndpointView,
    schema: Seq<Seq<char>>,
    p: QueryParamsView,
) -> Result<Seq<char>, CompileErrorView> {
    match spec_parts(ep, schema, p) {
        Err(e) => Err(e),
        Ok(q) => Ok(spec_assemble(q)),
    }
}

/// Compiles one request against an endpoint and its dataset schema.
///
/// `schema` holds the unqualified column names of the endpoint's dataset.
/// The result is exactly `spec_compile` of the inputs: the same endpoint,
/// schema and parameters always compile to the same statement.
#[verifier::rlimit(60)]
pub fn compile_sql(ep: &Endpoint, schema: &Vec<String>, params: &QueryParams) -> (r: Result<
    String,
    CompileError,
>)
    ensures
        match r {
            Ok(s) => spec_compile(ep@, schema.deep_view(), params@) == Ok::<
                _,
                CompileErrorView,
            >(s@),
            Err(e) => spec_compile(ep@, schema.deep_view(), params@) == Err::<Seq<char>, _>(e@),
        },
{
    let names: Vec<String> = match &params.columns {
        Some(s) => split_char(s.as_str(), ','),
        None => clone_strings(ep.default_columns.as_slice()),
    };
    proof {
        assert(names.deep_view() == spec_column_source(ep@, params@));
    }
    let (cols, group_by) = if names.len() == 0 {
        let mut c: Vec<String> = Vec::new();
        c.push("*".to_owned());
        let g: Vec<String> = Vec::new();
        proof {
            assert(c.deep_view() =~= seq!["*"@]);
            assert(g.deep_view() =~= Seq::<Seq<char>>::empty());
        }
        (c, g)
    } else {
        proof {
            assert(names.deep_view().subrange(0, names.len() as int) =~= names.deep_view());
        }
        match project_from(ep, schema, &names, 0) {
            Err(e) => {
                return Err(e);
            },
            Ok(p) => p,
        }
    };
    proof {
        assert(params.filters.deep_view().subrange(0, params.filters.len() as int)
            =~= params.filters.deep_view());
    }
    let (wheres, havings) = match filters_from(ep, schema, &params.filters, 0) {
        Err(e) => {
            return Err(e);
        },
        Ok(p) => p,
    };
    let orders = order_terms(&params.order);
    let limit = params.effective_limit();
    let offset = params.effective_offset();

    let ghost q = QueryParts {
        columns: cols.deep_view(),
        group_by: group_by.deep_view(),
        wheres: wheres.deep_view(),
        havings: havings.deep_view(),
        orders: orders.deep_view(),
        limit: limit,
        offset: offset,
        dataset: ep@.dataset,
    };
    proof {
        assert(spec_parts(ep@, schema.deep_view(), params@) == Ok::<_, CompileErrorView>(q));
    }

    let mut sql = "SELECT ".to_owned();
    sql.append(join_with(&cols, ", ").as_str());
    sql.append(" FROM ");
    sql.append(ep.dataset.as_str());
    sql.append(where_clause(&wheres).as_str());
    sql.append(group_clause(&cols, &group_by).as_str());
    sql.append(having_clause(&havings).as_str());
    sql.append(order_clause(&orders).as_str());
    sql.append(limit_clause(limit).as_str());
    sql.append(offset_clause(offset).as_str());
    proof {
        assert(sql@ == spec_assemble(q));
    }
    Ok(sql)
}

} // verus!
