use rest_sql::endpoint::{Aggregate, Column, Endpoint, Filter};
use rest_sql::endpoint::find_endpoint;
use rest_sql::params::QueryParams;
use rest_sql::sql::{compile_sql, CompileError};

fn sales_endpoint() -> Endpoint {
    Endpoint {
        name: "sales".to_string(),
        dataset: "orders".to_string(),
        columns: Vec::new(),
        aggregates: vec![Aggregate {
            name: "total".to_string(),
            formula: "SUM(amount)".to_string(),
            data_type: None,
        }],
        filters: vec![Filter {
            alias: "big".to_string(),
            formula: "amount__gte".to_string(),
            required: false,
        }],
        default_columns: vec!["region".to_string()],
        depends_on: Vec::new(),
    }
}

fn orders_schema() -> Vec<String> {
    vec!["region".to_string(), "amount".to_string()]
}

fn no_params() -> QueryParams {
    QueryParams { columns: None, filters: Vec::new(), order: None, limit: None, page: None }
}

#[test]
fn default_projection_and_limit() {
    let sql = compile_sql(&sales_endpoint(), &orders_schema(), &no_params()).unwrap();
    assert_eq!(sql, "SELECT region FROM orders LIMIT 1000");
}

#[test]
fn aggregate_projection_groups_plain_columns() {
    let mut p = no_params();
    p.columns = Some("region,total".to_string());
    let sql = compile_sql(&sales_endpoint(), &orders_schema(), &p).unwrap();
    assert_eq!(
        sql,
        "SELECT region, SUM(amount) AS total FROM orders GROUP BY region LIMIT 1000"
    );
}

#[test]
fn aggregate_only_projection_with_where() {
    let mut p = no_params();
    p.columns = Some("total".to_string());
    p.filters = vec![("filter[region][eq]".to_string(), "US".to_string())];
    let sql = compile_sql(&sales_endpoint(), &orders_schema(), &p).unwrap();
    assert_eq!(
        sql,
        "SELECT SUM(amount) AS total FROM orders WHERE region = 'US' LIMIT 1000"
    );
}

#[test]
fn aggregate_alias_filter_lands_in_having() {
    let mut ep = sales_endpoint();
    ep.filters = vec![Filter {
        alias: "big".to_string(),
        formula: "total__gte".to_string(),
        required: false,
    }];
    let mut p = no_params();
    p.columns = Some("region,total".to_string());
    p.filters = vec![("big".to_string(), "100".to_string())];
    let sql = compile_sql(&ep, &orders_schema(), &p).unwrap();
    assert_eq!(
        sql,
        "SELECT region, SUM(amount) AS total FROM orders GROUP BY region HAVING SUM(amount) >= '100' LIMIT 1000"
    );
}

#[test]
fn schema_alias_filter_lands_in_where() {
    let mut p = no_params();
    p.columns = Some("region,total".to_string());
    p.filters = vec![("big".to_string(), "100".to_string())];
    let sql = compile_sql(&sales_endpoint(), &orders_schema(), &p).unwrap();
    assert_eq!(
        sql,
        "SELECT region, SUM(amount) AS total FROM orders WHERE amount >= '100' GROUP BY region LIMIT 1000"
    );
}

#[test]
fn order_desc_with_limit_and_page() {
    let mut p = no_params();
    p.order = Some("-region".to_string());
    p.limit = Some(50);
    p.page = Some(2);
    let sql = compile_sql(&sales_endpoint(), &orders_schema(), &p).unwrap();
    assert_eq!(sql, "SELECT region FROM orders ORDER BY region DESC LIMIT 50 OFFSET 50");
}

#[test]
fn unknown_column_is_rejected_with_400() {
    let mut p = no_params();
    p.columns = Some("bogus".to_string());
    let err = compile_sql(&sales_endpoint(), &orders_schema(), &p).unwrap_err();
    assert_eq!(err.status_code(), 400);
    assert_eq!(err.message(), "The field bogus does not exist");
    assert!(matches!(err, CompileError::RequestMalformed { .. }));
}

#[test]
fn limit_zero_emits_no_limit_clause() {
    let mut p = no_params();
    p.limit = Some(0);
    let sql = compile_sql(&sales_endpoint(), &orders_schema(), &p).unwrap();
    assert_eq!(sql, "SELECT region FROM orders");
}

#[test]
fn page_zero_offsets_by_one_full_page() {
    let mut p = no_params();
    p.page = Some(0);
    let sql = compile_sql(&sales_endpoint(), &orders_schema(), &p).unwrap();
    assert_eq!(sql, "SELECT region FROM orders LIMIT 1000 OFFSET 1000");
}

#[test]
fn page_one_starts_at_the_first_row() {
    let mut p = no_params();
    p.page = Some(1);
    let sql = compile_sql(&sales_endpoint(), &orders_schema(), &p).unwrap();
    assert_eq!(sql, "SELECT region FROM orders LIMIT 1000");
}

#[test]
fn later_pages_skip_whole_pages() {
    let mut p = no_params();
    p.limit = Some(10);
    p.page = Some(3);
    let sql = compile_sql(&sales_endpoint(), &orders_schema(), &p).unwrap();
    assert_eq!(sql, "SELECT region FROM orders LIMIT 10 OFFSET 20");
}

#[test]
fn empty_projection_selects_star_without_group_by() {
    let mut ep = sales_endpoint();
    ep.default_columns = Vec::new();
    let sql = compile_sql(&ep, &orders_schema(), &no_params()).unwrap();
    assert_eq!(sql, "SELECT * FROM orders LIMIT 1000");
}

#[test]
fn compiling_twice_yields_identical_sql() {
    let mut p = no_params();
    p.columns = Some("region,total".to_string());
    p.filters = vec![
        ("filter[region][eq]".to_string(), "US".to_string()),
        ("big".to_string(), "7".to_string()),
    ];
    p.order = Some("-region".to_string());
    let a = compile_sql(&sales_endpoint(), &orders_schema(), &p).unwrap();
    let b = compile_sql(&sales_endpoint(), &orders_schema(), &p).unwrap();
    assert_eq!(a, b);
}

#[test]
fn reordered_filters_change_only_term_order() {
    let mut p1 = no_params();
    p1.filters = vec![
        ("filter[region][eq]".to_string(), "US".to_string()),
        ("filter[amount][gt]".to_string(), "5".to_string()),
    ];
    let mut p2 = no_params();
    p2.filters = vec![
        ("filter[amount][gt]".to_string(), "5".to_string()),
        ("filter[region][eq]".to_string(), "US".to_string()),
    ];
    let a = compile_sql(&sales_endpoint(), &orders_schema(), &p1).unwrap();
    let b = compile_sql(&sales_endpoint(), &orders_schema(), &p2).unwrap();
    assert_eq!(a, "SELECT region FROM orders WHERE region = 'US' AND amount > '5' LIMIT 1000");
    assert_eq!(b, "SELECT region FROM orders WHERE amount > '5' AND region = 'US' LIMIT 1000");
}

#[test]
fn every_operator_token_is_translated() {
    let cases = [
        ("eq", "="),
        ("", "="),
        ("lt", "<"),
        ("lte", "<="),
        ("lteq", "<="),
        ("gt", ">"),
        ("gte", ">="),
        ("gteq", ">="),
    ];
    for (token, symbol) in cases.iter() {
        let mut p = no_params();
        p.filters = vec![(format!("filter[region][{token}]"), "US".to_string())];
        let sql = compile_sql(&sales_endpoint(), &orders_schema(), &p).unwrap();
        assert_eq!(sql, format!("SELECT region FROM orders WHERE region {symbol} 'US' LIMIT 1000"));
    }
}

#[test]
fn unknown_operator_is_rejected() {
    let mut p = no_params();
    p.filters = vec![("filter[region][like]".to_string(), "US".to_string())];
    let err = compile_sql(&sales_endpoint(), &orders_schema(), &p).unwrap_err();
    assert_eq!(err.status_code(), 400);
    assert_eq!(err.message(), "Not valid filter operator like");
}

#[test]
fn overlong_filter_key_is_rejected() {
    let mut p = no_params();
    p.filters = vec![("filter[a][b][c]".to_string(), "1".to_string())];
    let err = compile_sql(&sales_endpoint(), &orders_schema(), &p).unwrap_err();
    assert_eq!(err.status_code(), 400);
    assert_eq!(err.message(), "Not valid statement filter[a][b][c]");
}

#[test]
fn unknown_filter_column_is_rejected() {
    let mut p = no_params();
    p.filters = vec![("filter[bogus][eq]".to_string(), "1".to_string())];
    let err = compile_sql(&sales_endpoint(), &orders_schema(), &p).unwrap_err();
    assert_eq!(err.status_code(), 400);
    assert_eq!(err.message(), "The field bogus does not exist");
}

#[test]
fn unmatched_query_keys_are_ignored() {
    let mut p = no_params();
    p.filters = vec![("unrelated".to_string(), "1".to_string())];
    let sql = compile_sql(&sales_endpoint(), &orders_schema(), &p).unwrap();
    assert_eq!(sql, "SELECT region FROM orders LIMIT 1000");
}

#[test]
fn filter_formula_without_separator_is_a_server_error() {
    let mut ep = sales_endpoint();
    ep.filters = vec![Filter {
        alias: "big".to_string(),
        formula: "amount".to_string(),
        required: false,
    }];
    let mut p = no_params();
    p.filters = vec![("big".to_string(), "1".to_string())];
    let err = compile_sql(&ep, &orders_schema(), &p).unwrap_err();
    assert_eq!(err.status_code(), 500);
    assert_eq!(err.message(), "Filtering big contains an error");
    assert!(matches!(err, CompileError::EndpointMisconfigured { .. }));
}

#[test]
fn two_aggregate_filters_join_having_with_comma() {
    let mut p = no_params();
    p.columns = Some("region,total".to_string());
    p.filters = vec![
        ("filter[total][gt]".to_string(), "1".to_string()),
        ("filter[total][lt]".to_string(), "9".to_string()),
    ];
    let sql = compile_sql(&sales_endpoint(), &orders_schema(), &p).unwrap();
    assert_eq!(
        sql,
        "SELECT region, SUM(amount) AS total FROM orders GROUP BY region HAVING SUM(amount) > '1', SUM(amount) < '9' LIMIT 1000"
    );
}

#[test]
fn aliased_column_is_renamed_and_grouped() {
    let mut ep = sales_endpoint();
    ep.columns = vec![Column {
        name: "region".to_string(),
        alias: Some("zone".to_string()),
        data_type: None,
    }];
    let mut p = no_params();
    p.columns = Some("region,total".to_string());
    let sql = compile_sql(&ep, &orders_schema(), &p).unwrap();
    assert_eq!(
        sql,
        "SELECT region AS zone, SUM(amount) AS total FROM orders GROUP BY region LIMIT 1000"
    );
}

#[test]
fn order_tokens_keep_plain_strip_plus_suffix_minus() {
    let mut p = no_params();
    p.order = Some("region,+amount,-region".to_string());
    let sql = compile_sql(&sales_endpoint(), &orders_schema(), &p).unwrap();
    assert_eq!(
        sql,
        "SELECT region FROM orders ORDER BY region, amount, region DESC LIMIT 1000"
    );
}

#[test]
fn endpoint_lookup_is_case_insensitive() {
    let endpoints = vec![sales_endpoint()];
    assert_eq!(find_endpoint(&endpoints, "SaLeS"), Some(0));
    assert_eq!(find_endpoint(&endpoints, "sales"), Some(0));
    assert_eq!(find_endpoint(&endpoints, "orders"), None);
}

#[test]
fn duplicated_endpoints_keep_the_first_match() {
    let mut second = sales_endpoint();
    second.name = "SALES".to_string();
    second.dataset = "other".to_string();
    let endpoints = vec![sales_endpoint(), second];
    assert_eq!(find_endpoint(&endpoints, "sAlEs"), Some(0));
}

#[test]
fn aggregate_lookup_returns_the_first_entry() {
    let mut ep = sales_endpoint();
    ep.aggregates.push(Aggregate {
        name: "total".to_string(),
        formula: "COUNT(*)".to_string(),
        data_type: None,
    });
    let agg = ep.get_aggregate_column("total").unwrap();
    assert_eq!(agg.formula, "SUM(amount)");
    assert!(ep.get_aggregate_column("none").is_none());
}

#[test]
fn alias_lookup_flattens_missing_aliases() {
    let mut ep = sales_endpoint();
    ep.columns = vec![
        Column { name: "region".to_string(), alias: None, data_type: None },
        Column { name: "amount".to_string(), alias: Some("value".to_string()), data_type: None },
    ];
    assert_eq!(ep.get_alias_column("region"), None);
    assert_eq!(ep.get_alias_column("amount"), Some("value".to_string()));
    assert_eq!(ep.get_alias_column("other"), None);
}

#[test]
fn filter_statement_lookup_matches_alias() {
    let ep = sales_endpoint();
    let f = ep.get_filter_statement("big").unwrap();
    assert_eq!(f.formula, "amount__gte");
    assert!(ep.get_filter_statement("small").is_none());
}

#[test]
fn with_depends_on_replaces_only_the_hints() {
    let ep = sales_endpoint();
    let hinted = ep.with_depends_on(&["orders".to_string()]);
    assert_eq!(hinted.name, ep.name);
    assert_eq!(hinted.dataset, ep.dataset);
    assert_eq!(hinted.depends_on, vec!["orders".to_string()]);
}

#[test]
fn effective_limit_and_offset_defaults() {
    let p = no_params();
    assert_eq!(p.effective_limit(), 1000);
    assert_eq!(p.effective_offset(), 0);
    let mut q = no_params();
    q.limit = Some(20);
    q.page = Some(0);
    assert_eq!(q.effective_limit(), 20);
    assert_eq!(q.effective_offset(), 20);
}

#[test]
fn empty_columns_parameter_rejects_the_empty_name() {
    let mut p = no_params();
    p.columns = Some(String::new());
    let err = compile_sql(&sales_endpoint(), &orders_schema(), &p).unwrap_err();
    assert_eq!(err.status_code(), 400);
    assert_eq!(err.message(), "The field  does not exist");
}

#[test]
fn bare_filter_prefix_rejects_the_empty_column() {
    let mut p = no_params();
    p.filters = vec![("filter[".to_string(), "1".to_string())];
    let err = compile_sql(&sales_endpoint(), &orders_schema(), &p).unwrap_err();
    assert_eq!(err.status_code(), 400);
    assert_eq!(err.message(), "The field  does not exist");
}
