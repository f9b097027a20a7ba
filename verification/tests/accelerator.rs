use rest_sql::accel::{
    Acceleration, AcceleratorExternalTableBuilder, Constraint, Engine, Error, IndexType, Mode,
    OnConflict, engine_name, get_primary_keys_from_constraints, index_name, mode_name,
    plan_accelerator_table, unknown_engine_message,
};
use rest_sql::registry::AcceleratorRegistry;
use rest_sql::response::{
    QueryOutcome, endpoint_not_found_message, flight_dataset_path, flight_query,
    masked_error_message, metrics_body, response_for,
};
use rest_sql::sql::CompileError;

fn option(t: &rest_sql::accel::CreateExternalTable, key: &str) -> Option<String> {
    t.options.iter().find(|p| p.0 == key).map(|p| p.1.clone())
}

#[test]
fn builder_defaults_to_a_memory_descriptor() {
    let b = AcceleratorExternalTableBuilder::new(
        "orders".to_string(),
        vec!["region".to_string()],
        Engine::DuckDB,
    );
    let t = b.build().unwrap();
    assert_eq!(t.name, "orders");
    assert_eq!(t.schema, vec!["region".to_string()]);
    assert_eq!(t.location, "");
    assert_eq!(t.file_type, "");
    assert!(t.if_not_exists);
    assert!(!t.unbounded);
    assert!(t.constraints.is_empty());
    assert_eq!(t.options, vec![("mode".to_string(), "memory".to_string())]);
}

#[test]
fn arrow_engine_refuses_file_mode() {
    let b = AcceleratorExternalTableBuilder::new(
        "orders".to_string(),
        vec!["region".to_string()],
        Engine::Arrow,
    ).mode(Mode::File);
    let err = b.build().unwrap_err();
    assert_eq!(
        err,
        Error::InvalidConfiguration { msg: "File mode not supported for Arrow engine".to_string() }
    );
}

#[test]
fn build_serializes_indexes_and_conflict_policy() {
    let b = AcceleratorExternalTableBuilder::new(
        "orders".to_string(),
        vec!["region".to_string(), "amount".to_string()],
        Engine::Sqlite,
    ).mode(Mode::File)
        .options(vec![("journal".to_string(), "wal".to_string())])
        .indexes(vec![
            ("region".to_string(), IndexType::Enabled),
            ("amount".to_string(), IndexType::Unique),
        ])
        .on_conflict(OnConflict::Upsert(vec!["region".to_string(), "amount".to_string()]));
    let t = b.build().unwrap();
    assert_eq!(option(&t, "journal"), Some("wal".to_string()));
    assert_eq!(option(&t, "mode"), Some("file".to_string()));
    assert_eq!(option(&t, "indexes"), Some("region:enabled;amount:unique".to_string()));
    assert_eq!(option(&t, "on_conflict"), Some("upsert:region;amount".to_string()));
}

#[test]
fn build_overwrites_a_user_supplied_mode_option() {
    let b = AcceleratorExternalTableBuilder::new(
        "orders".to_string(),
        vec!["region".to_string()],
        Engine::DuckDB,
    ).mode(Mode::File).options(vec![
        ("mode".to_string(), "bogus".to_string()),
        ("threads".to_string(), "4".to_string()),
    ]);
    let t = b.build().unwrap();
    assert_eq!(
        t.options,
        vec![
            ("mode".to_string(), "file".to_string()),
            ("threads".to_string(), "4".to_string()),
        ]
    );
}

#[test]
fn primary_keys_are_read_off_the_schema() {
    let schema = vec!["a".to_string(), "b".to_string(), "c".to_string()];
    let constraints = vec![Constraint::PrimaryKey(vec![0, 2]), Constraint::Unique(vec![1])];
    let keys = get_primary_keys_from_constraints(&constraints, &schema);
    assert_eq!(keys, vec!["a".to_string(), "c".to_string()]);
}

#[test]
fn plan_adopts_federated_constraints_with_an_upsert() {
    let settings = Acceleration {
        engine: Engine::PostgreSQL,
        mode: Mode::Memory,
        params: Vec::new(),
        indexes: vec![("region".to_string(), IndexType::Enabled)],
        on_conflict: None,
    };
    let schema = vec!["region".to_string(), "amount".to_string()];
    let federated = Some(vec![Constraint::PrimaryKey(vec![0])]);
    let t = plan_accelerator_table("orders", &schema, &federated, &settings, Vec::new()).unwrap();
    assert_eq!(option(&t, "on_conflict"), Some("upsert:region".to_string()));
    assert_eq!(option(&t, "indexes"), Some("region:enabled".to_string()));
    assert_eq!(t.constraints, vec![Constraint::PrimaryKey(vec![0])]);
}

#[test]
fn plan_lets_an_explicit_conflict_policy_win() {
    let settings = Acceleration {
        engine: Engine::DuckDB,
        mode: Mode::Memory,
        params: Vec::new(),
        indexes: Vec::new(),
        on_conflict: Some(OnConflict::Upsert(vec!["amount".to_string()])),
    };
    let schema = vec!["region".to_string(), "amount".to_string()];
    let federated = Some(vec![Constraint::PrimaryKey(vec![0])]);
    let t = plan_accelerator_table("orders", &schema, &federated, &settings, Vec::new()).unwrap();
    assert_eq!(option(&t, "on_conflict"), Some("upsert:amount".to_string()));
}

#[test]
fn plan_rejects_an_index_outside_the_schema() {
    let settings = Acceleration {
        engine: Engine::DuckDB,
        mode: Mode::Memory,
        params: Vec::new(),
        indexes: vec![("bogus".to_string(), IndexType::Enabled)],
        on_conflict: None,
    };
    let schema = vec!["region".to_string()];
    let err = plan_accelerator_table("orders", &schema, &None, &settings, Vec::new()).unwrap_err();
    assert_eq!(err, Error::InvalidConfiguration { msg: "Unknown index column bogus".to_string() });
}

#[test]
fn engine_and_mode_names_are_fixed() {
    assert_eq!(engine_name(Engine::Arrow), "arrow");
    assert_eq!(engine_name(Engine::DuckDB), "duckdb");
    assert_eq!(engine_name(Engine::PostgreSQL), "postgres");
    assert_eq!(engine_name(Engine::Sqlite), "sqlite");
    assert_eq!(mode_name(Mode::Memory), "memory");
    assert_eq!(mode_name(Mode::File), "file");
    assert_eq!(index_name(IndexType::Enabled), "enabled");
    assert_eq!(index_name(IndexType::Unique), "unique");
    assert_eq!(unknown_engine_message(Engine::DuckDB), "Unknown engine: duckdb");
}

#[test]
fn registry_returns_what_was_registered() {
    let mut registry: AcceleratorRegistry<String> = AcceleratorRegistry::new();
    assert!(registry.get(Engine::Arrow).is_none());
    registry.register(Engine::Arrow, "arrow accelerator".to_string());
    registry.register(Engine::Sqlite, "sqlite accelerator".to_string());
    assert_eq!(registry.get(Engine::Arrow), Some(&"arrow accelerator".to_string()));
    assert_eq!(registry.get(Engine::Sqlite), Some(&"sqlite accelerator".to_string()));
    assert!(registry.get(Engine::DuckDB).is_none());
    assert_eq!(registry.len(), 2);
}

#[test]
fn registering_twice_overwrites_in_place() {
    let mut registry: AcceleratorRegistry<u32> = AcceleratorRegistry::new();
    registry.register(Engine::DuckDB, 1);
    registry.register(Engine::DuckDB, 2);
    assert_eq!(registry.get(Engine::DuckDB), Some(&2));
    assert_eq!(registry.len(), 1);
}

#[test]
fn responses_follow_the_outcome_table() {
    let missing = QueryOutcome::EndpointMissing { name: "sales".to_string() };
    assert_eq!(response_for(&missing), (404, "Source sales not found".to_string()));
    assert_eq!(response_for(&QueryOutcome::SchemaUnavailable), (500, "Please, contact us".to_string()));
    let rejected = QueryOutcome::Rejected(CompileError::RequestMalformed {
        message: "The field x does not exist".to_string(),
    });
    assert_eq!(response_for(&rejected), (400, "The field x does not exist".to_string()));
    let compiled = QueryOutcome::Compiled("SELECT 1".to_string());
    assert_eq!(response_for(&compiled), (200, "SELECT 1".to_string()));
    assert_eq!(endpoint_not_found_message("sales"), "Source sales not found");
    assert_eq!(masked_error_message(), "Please, contact us");
}

#[test]
fn metrics_body_answers_health_and_renders_the_rest() {
    assert_eq!(metrics_body("/health", "snapshot".to_string()), "OK");
    assert_eq!(metrics_body("/metrics", "snapshot".to_string()), "snapshot");
}

#[test]
fn flight_statements_are_fully_qualified() {
    let fq = flight_dataset_path("spice.tpch", "orders");
    assert_eq!(fq, "spice.tpch.orders");
    assert_eq!(flight_query(&fq), "SELECT * FROM spice.tpch.orders");
}
