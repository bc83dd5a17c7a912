use log_server::broadcast::EventBroadcaster;
use log_server::dto::{CreateLogRequest, CreateSchemaRequest, DeleteSchemaQuery};
use log_server::{
    create_log, create_schema, delete_log, delete_schema, get_log_by_id, get_logs,
    get_logs_default, AppState, MemoryLogRepository, MemorySchemaRepository,
};
use serde_json::Value;

fn fresh_state() -> AppState<MemorySchemaRepository, MemoryLogRepository> {
    AppState::new(
        MemorySchemaRepository::new(),
        MemoryLogRepository::new(),
        EventBroadcaster::new(100),
    )
}

fn json(text: &str) -> Value {
    serde_json::from_str(text).unwrap()
}

fn register(
    state: &mut AppState<MemorySchemaRepository, MemoryLogRepository>,
    name: &str,
    definition: &str,
) -> u128 {
    let payload = CreateSchemaRequest {
        name: name.to_string(),
        version: "1.0.0".to_string(),
        description: None,
        schema_definition: json(definition),
    };
    create_schema(state, payload).unwrap().2.id
}

const MESSAGE_SCHEMA: &str =
    r#"{"type":"object","properties":{"message":{"type":"string"}},"required":["message"]}"#;

fn store(
    state: &mut AppState<MemorySchemaRepository, MemoryLogRepository>,
    schema_id: u128,
    data: &str,
) -> i32 {
    let payload = CreateLogRequest { schema_id, log_data: json(data) };
    create_log(state, payload).unwrap().1.id
}

#[test]
fn creates_log_with_valid_data() {
    let mut state = fresh_state();
    let schema_id = register(&mut state, "log-create-test", MESSAGE_SCHEMA);
    let payload =
        CreateLogRequest { schema_id, log_data: json(r#"{"message":"Test log message"}"#) };
    let (status, log) = create_log(&mut state, payload).unwrap();
    assert_eq!(status, 201);
    assert_eq!(log.schema_id, schema_id);
    assert_eq!(log.log_data["message"], "Test log message");
    assert_eq!(log.log_data, json(r#"{"message":"Test log message"}"#));
    assert!(log.id > 0);
    assert!(chrono::DateTime::parse_from_rfc3339(&log.created_at).unwrap().timestamp() > 0);
}

#[test]
fn rejects_nonexistent_schema_id() {
    let mut state = fresh_state();
    let id = uuid::Uuid::new_v4();
    let payload =
        CreateLogRequest { schema_id: id.as_u128(), log_data: json(r#"{"message":"x"}"#) };
    let (status, error) = create_log(&mut state, payload).unwrap_err();
    assert_eq!(status, 404);
    assert_eq!(error.error, "NOT_FOUND");
    assert!(error.message.contains("Schema"));
    assert_eq!(error.message, format!("Not found: Schema with id '{}' not found", id));
}

#[test]
fn rejects_nil_schema_id() {
    let mut state = fresh_state();
    let payload = CreateLogRequest { schema_id: 0, log_data: json(r#"{"message":"x"}"#) };
    let (status, error) = create_log(&mut state, payload).unwrap_err();
    assert_eq!(status, 400);
    assert_eq!(error.error, "INVALID_INPUT");
    assert_eq!(error.message, "Schema ID cannot be empty");
}

#[test]
fn rejects_log_data_that_is_no_object() {
    let mut state = fresh_state();
    let schema_id = register(&mut state, "shape", MESSAGE_SCHEMA);
    let payload = CreateLogRequest { schema_id, log_data: json(r#"["message"]"#) };
    let (status, error) = create_log(&mut state, payload).unwrap_err();
    assert_eq!(status, 400);
    assert_eq!(error.error, "INVALID_INPUT");
    assert_eq!(error.message, "Log data must be a JSON object");
}

#[test]
fn validates_log_data_against_schema() {
    let mut state = fresh_state();
    let schema_id = register(&mut state, "validation-test", MESSAGE_SCHEMA);
    let payload = CreateLogRequest { schema_id, log_data: json(r#"{"other":"x"}"#) };
    let (status, error) = create_log(&mut state, payload).unwrap_err();
    assert_eq!(status, 400);
    assert_eq!(error.error, "VALIDATION_FAILED");
    assert!(error.message.starts_with(
        "Schema validation error: Schema validation failed: Validation error at '': "
    ));
    assert!(error.message.contains("message"));
    assert!(error.message.contains("required"));
    let listed = get_logs_default(&state, "validation-test".to_string(), Vec::new()).unwrap();
    assert!(listed.is_empty());
}

#[test]
fn lists_every_violated_path() {
    let mut state = fresh_state();
    let schema_id = register(
        &mut state,
        "two-fields",
        r#"{"type":"object","properties":{"a":{"type":"string"},"b":{"type":"integer"}}}"#,
    );
    let payload = CreateLogRequest { schema_id, log_data: json(r#"{"a":1,"b":"two"}"#) };
    let (status, error) = create_log(&mut state, payload).unwrap_err();
    assert_eq!(status, 400);
    assert!(error.message.contains("Validation error at '/a': "));
    assert!(error.message.contains("; Validation error at '/b': "));
}

#[test]
fn accepts_additional_properties() {
    let mut state = fresh_state();
    let schema_id = register(&mut state, "additional-props", MESSAGE_SCHEMA);
    let payload = CreateLogRequest {
        schema_id,
        log_data: json(r#"{"message":"Test","extra_field":"allowed","n":42}"#),
    };
    let (status, log) = create_log(&mut state, payload).unwrap();
    assert_eq!(status, 201);
    assert_eq!(log.log_data["extra_field"], "allowed");
}

#[test]
fn retrieves_log_by_id() {
    let mut state = fresh_state();
    let schema_id = register(&mut state, "log-read-test", MESSAGE_SCHEMA);
    let id = store(&mut state, schema_id, r#"{"message":"Test log message"}"#);
    let found = get_log_by_id(&state, id).unwrap();
    assert_eq!(found.id, id);
    assert_eq!(found.schema_id, schema_id);
    assert_eq!(found.log_data["message"], "Test log message");
}

#[test]
fn read_returns_404_for_nonexistent_log() {
    let state = fresh_state();
    let (status, error) = get_log_by_id(&state, 99999).unwrap_err();
    assert_eq!(status, 404);
    assert_eq!(error.error, "NOT_FOUND");
    assert_eq!(error.message, "Log with id '99999' not found");
    let (_, error) = get_log_by_id(&state, -7).unwrap_err();
    assert_eq!(error.message, "Log with id '-7' not found");
}

#[test]
fn gets_logs_by_schema_name() {
    let mut state = fresh_state();
    let schema_id = register(&mut state, "logs-by-name", MESSAGE_SCHEMA);
    let other = register(&mut state, "another", MESSAGE_SCHEMA);
    for i in 0..3 {
        store(&mut state, schema_id, &format!(r#"{{"message":"Log message {}"}}"#, i));
    }
    store(&mut state, other, r#"{"message":"elsewhere"}"#);
    let logs = get_logs_default(&state, "logs-by-name".to_string(), Vec::new()).unwrap();
    assert_eq!(logs.len(), 3);
    assert!(logs.iter().all(|l| l.schema_id == schema_id));
    assert!(logs.windows(2).all(|w| w[0].created_at >= w[1].created_at));
}

#[test]
fn gets_logs_by_schema_name_and_version() {
    let mut state = fresh_state();
    let schema_id = register(&mut state, "logs-by-name-version", MESSAGE_SCHEMA);
    store(&mut state, schema_id, r#"{"message":"one"}"#);
    let logs = get_logs(
        &state,
        "logs-by-name-version".to_string(),
        "1.0.0".to_string(),
        Vec::new(),
    )
    .unwrap();
    assert_eq!(logs.len(), 1);
    let (status, _) = get_logs(
        &state,
        "logs-by-name-version".to_string(),
        "9.9.9".to_string(),
        Vec::new(),
    )
    .unwrap_err();
    assert_eq!(status, 404);
}

#[test]
fn filters_logs_with_query_parameters() {
    let mut state = fresh_state();
    let schema_id = register(
        &mut state,
        "filter-test",
        r#"{"type":"object","properties":{"message":{"type":"string"},"level":{"type":"string"}},"required":["message"]}"#,
    );
    for level in ["INFO", "ERROR", "INFO"] {
        store(
            &mut state,
            schema_id,
            &format!(r#"{{"message":"{} log message","level":"{}"}}"#, level, level),
        );
    }
    let logs = get_logs_default(
        &state,
        "filter-test".to_string(),
        vec![("level".to_string(), "ERROR".to_string())],
    )
    .unwrap();
    assert_eq!(logs.len(), 1);
    assert_eq!(logs[0].log_data["level"], "ERROR");
    let infos = get_logs_default(
        &state,
        "filter-test".to_string(),
        vec![("level".to_string(), "INFO".to_string())],
    )
    .unwrap();
    assert_eq!(infos.len(), 2);
}

#[test]
fn filters_by_numbers_and_by_several_members() {
    let mut state = fresh_state();
    let schema_id = register(
        &mut state,
        "filter-numbers",
        r#"{"type":"object","properties":{"level":{"type":"string"},"code":{"type":"integer"}},"required":["level"]}"#,
    );
    for (level, code) in [("INFO", 1), ("ERROR", 5), ("DEBUG", 5)] {
        store(&mut state, schema_id, &format!(r#"{{"level":"{}","code":{}}}"#, level, code));
    }
    let by_code = get_logs_default(
        &state,
        "filter-numbers".to_string(),
        vec![("code".to_string(), "5".to_string())],
    )
    .unwrap();
    assert_eq!(by_code.len(), 2);
    let by_both = get_logs_default(
        &state,
        "filter-numbers".to_string(),
        vec![("code".to_string(), "5".to_string()), ("level".to_string(), "DEBUG".to_string())],
    )
    .unwrap();
    assert_eq!(by_both.len(), 1);
    assert_eq!(by_both[0].log_data["level"], "DEBUG");
    let by_text_code = get_logs_default(
        &state,
        "filter-numbers".to_string(),
        vec![("code".to_string(), "\"5\"".to_string())],
    )
    .unwrap();
    assert!(by_text_code.is_empty());
    let unknown_key = get_logs_default(
        &state,
        "filter-numbers".to_string(),
        vec![("absent".to_string(), "x".to_string())],
    )
    .unwrap();
    assert!(unknown_key.is_empty());
}

#[test]
fn returns_404_for_nonexistent_schema_name() {
    let state = fresh_state();
    let (status, error) =
        get_logs_default(&state, "nonexistent-schema".to_string(), Vec::new()).unwrap_err();
    assert_eq!(status, 404);
    assert_eq!(error.error, "NOT_FOUND");
    assert_eq!(
        error.message,
        "Not found: Schema with name:version 'nonexistent-schema:1.0.0' not found"
    );
}

#[test]
fn read_rejects_empty_schema_name() {
    let state = fresh_state();
    let (status, error) = get_logs_default(&state, " ".to_string(), Vec::new()).unwrap_err();
    assert_eq!(status, 400);
    assert_eq!(error.error, "INVALID_INPUT");
    assert_eq!(error.message, "Schema name or version cannot be empty");
    let (status, _) =
        get_logs(&state, "named".to_string(), "".to_string(), Vec::new()).unwrap_err();
    assert_eq!(status, 400);
}

#[test]
fn deletes_existing_log_successfully() {
    let mut state = fresh_state();
    let schema_id = register(&mut state, "log-delete-test", MESSAGE_SCHEMA);
    let id = store(&mut state, schema_id, r#"{"message":"to delete"}"#);
    assert_eq!(delete_log(&mut state, id).unwrap(), 204);
}

#[test]
fn delete_returns_404_for_nonexistent_log() {
    let mut state = fresh_state();
    let (status, error) = delete_log(&mut state, 99999).unwrap_err();
    assert_eq!(status, 404);
    assert_eq!(error.error, "NOT_FOUND");
    assert_eq!(error.message, "Log with id '99999' not found");
}

#[test]
fn log_not_accessible_after_deletion() {
    let mut state = fresh_state();
    let schema_id = register(&mut state, "log-access-test", MESSAGE_SCHEMA);
    let id = store(&mut state, schema_id, r#"{"message":"short lived"}"#);
    let keep = store(&mut state, schema_id, r#"{"message":"stays"}"#);
    assert!(get_log_by_id(&state, id).is_ok());
    assert_eq!(delete_log(&mut state, id).unwrap(), 204);
    let (status, _) = get_log_by_id(&state, id).unwrap_err();
    assert_eq!(status, 404);
    assert!(get_log_by_id(&state, keep).is_ok());
}

#[test]
fn double_delete_returns_404() {
    let mut state = fresh_state();
    let schema_id = register(&mut state, "double-delete-test", MESSAGE_SCHEMA);
    let id = store(&mut state, schema_id, r#"{"message":"once"}"#);
    assert_eq!(delete_log(&mut state, id).unwrap(), 204);
    let (status, error) = delete_log(&mut state, id).unwrap_err();
    assert_eq!(status, 404);
    assert_eq!(error.error, "NOT_FOUND");
}

#[test]
fn identifiers_are_not_issued_twice() {
    let mut state = fresh_state();
    let schema_id = register(&mut state, "sequence", MESSAGE_SCHEMA);
    let first = store(&mut state, schema_id, r#"{"message":"1"}"#);
    let second = store(&mut state, schema_id, r#"{"message":"2"}"#);
    assert_eq!((first, second), (1, 2));
    delete_log(&mut state, second).unwrap();
    let third = store(&mut state, schema_id, r#"{"message":"3"}"#);
    assert_eq!(third, 3);
}

#[test]
fn schema_with_logs_is_deleted_only_by_force() {
    let mut state = fresh_state();
    let schema_id = register(&mut state, "guarded", MESSAGE_SCHEMA);
    let other = register(&mut state, "bystander", MESSAGE_SCHEMA);
    let a = store(&mut state, schema_id, r#"{"message":"a"}"#);
    let b = store(&mut state, schema_id, r#"{"message":"b"}"#);
    let c = store(&mut state, other, r#"{"message":"c"}"#);
    let (status, error) =
        delete_schema(&mut state, schema_id, DeleteSchemaQuery { force: None }).unwrap_err();
    assert_eq!(status, 409);
    assert_eq!(error.error, "SCHEMA_HAS_LOGS");
    assert_eq!(
        error.message,
        "Conflict: Cannot delete schema: 2 log(s) are associated with this schema. Use force=true to delete schema and all associated logs."
    );
    let (status, _) =
        delete_schema(&mut state, schema_id, DeleteSchemaQuery { force: Some(false) }).unwrap_err();
    assert_eq!(status, 409);
    assert!(get_log_by_id(&state, a).is_ok());
    let status =
        delete_schema(&mut state, schema_id, DeleteSchemaQuery { force: Some(true) }).unwrap();
    assert_eq!(status, 204);
    assert_eq!(get_log_by_id(&state, a).unwrap_err().0, 404);
    assert_eq!(get_log_by_id(&state, b).unwrap_err().0, 404);
    assert!(get_log_by_id(&state, c).is_ok());
}

#[test]
fn schema_not_accessible_after_deletion() {
    let mut state = fresh_state();
    let schema_id = register(&mut state, "gone", MESSAGE_SCHEMA);
    assert!(log_server::get_schema_by_id(&state, schema_id).is_ok());
    assert_eq!(delete_schema(&mut state, schema_id, DeleteSchemaQuery { force: None }).unwrap(), 204);
    assert_eq!(log_server::get_schema_by_id(&state, schema_id).unwrap_err().0, 404);
    let payload = CreateLogRequest { schema_id, log_data: json(r#"{"message":"late"}"#) };
    assert_eq!(create_log(&mut state, payload).unwrap_err().0, 404);
}

#[test]
fn log_keeps_conforming_to_the_definition_it_was_stored_under() {
    let mut state = fresh_state();
    let schema_id = register(&mut state, "drifting", MESSAGE_SCHEMA);
    let id = store(&mut state, schema_id, r#"{"message":"old shape"}"#);
    let payload = log_server::dto::UpdateSchemaRequest {
        name: "drifting".to_string(),
        version: "1.0.0".to_string(),
        description: None,
        schema_definition: json(
            r#"{"type":"object","properties":{"count":{"type":"integer"}},"required":["count"]}"#,
        ),
    };
    log_server::update_schema(&mut state, schema_id, payload).unwrap();
    assert_eq!(get_log_by_id(&state, id).unwrap().log_data["message"], "old shape");
    let again = CreateLogRequest { schema_id, log_data: json(r#"{"message":"old shape"}"#) };
    assert_eq!(create_log(&mut state, again).unwrap_err().0, 400);
    let fits = CreateLogRequest { schema_id, log_data: json(r#"{"count":3}"#) };
    assert_eq!(create_log(&mut state, fits).unwrap().0, 201);
}
