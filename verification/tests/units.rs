use log_server::broadcast::{EventBroadcaster, SessionSignal};
use log_server::dto::{
    CreateLogRequest, CreateSchemaRequest, ErrorResponse, LogResponse, SchemaResponse,
};
use log_server::error::{AppError, ErrorKind, StoreFailure};
use log_server::filter::{
    contains_all, decode_param, decoded_or_text, passes_filter, structural, translate_filter,
};
use log_server::handlers::log_handlers::{log_list_failure, log_write_failure};
use log_server::handlers::schema_handlers::{schema_delete_failure, schema_write_failure};
use log_server::handlers::WebSocketQuery;
use log_server::ids::is_nil;
use log_server::repositories::schema_repository::{select_query, SchemaQuery};
use log_server::repositories::SchemaQueryParams;
use log_server::services::schema_service::check_input;
use log_server::text::{int_to_string, is_blank, join, nat_to_string, same_text};
use log_server::time::to_rfc3339;
use log_server::validation::{
    definition_outcome, format_violation, instance_outcome, validate, validate_log_against_schema,
    validate_schema_definition, PathError,
};
use log_server::{
    create_log, create_schema, delete_log, ws_handler, AppState, Log, LogEvent, LogRepositoryTrait,
    LogService, MemoryLogRepository, MemorySchemaRepository, RequestIdLayer, RequestIdMakeSpan,
    Schema, SchemaRepositoryTrait, SchemaService,
};
use serde_json::Value;
use std::collections::HashMap;

fn json(text: &str) -> Value {
    serde_json::from_str(text).unwrap()
}

const MESSAGE_SCHEMA: &str =
    r#"{"type":"object","properties":{"message":{"type":"string"}},"required":["message"]}"#;

#[test]
fn blank_is_empty_or_white_space_only() {
    assert!(is_blank(""));
    assert!(is_blank(" \t\r\n"));
    assert!(is_blank("\u{3000}\u{a0}\u{2003}\u{85}"));
    assert!(!is_blank(" a "));
    assert!(!is_blank("\u{200b}"));
    assert!(!is_blank("0"));
    for c in ['\u{9}', '\u{d}', '\u{20}', '\u{1680}', '\u{2000}', '\u{200a}', '\u{2028}', '\u{2029}', '\u{202f}', '\u{205f}'] {
        assert!(is_blank(&c.to_string()));
        assert_eq!(is_blank(&c.to_string()), c.to_string().trim().is_empty());
    }
    for c in ['\u{8}', '\u{e}', '\u{1f}', '\u{200b}', '\u{180e}', '\u{feff}', 'x'] {
        assert!(!is_blank(&c.to_string()));
    }
}

#[test]
fn integers_are_written_in_decimal() {
    assert_eq!(nat_to_string(0), "0");
    assert_eq!(nat_to_string(9), "9");
    assert_eq!(nat_to_string(10), "10");
    assert_eq!(nat_to_string(u64::MAX), "18446744073709551615");
    assert_eq!(int_to_string(0), "0");
    assert_eq!(int_to_string(-1), "-1");
    assert_eq!(int_to_string(1234567890), "1234567890");
    assert_eq!(int_to_string(i64::MAX), "9223372036854775807");
    assert_eq!(int_to_string(i64::MIN), "-9223372036854775808");
}

#[test]
fn join_puts_the_separator_between_neighbours() {
    assert_eq!(join(&Vec::new(), "; "), "");
    assert_eq!(join(&vec!["a".to_string()], "; "), "a");
    assert_eq!(join(&vec!["a".to_string(), "".to_string(), "c".to_string()], "; "), "a; ; c");
    assert!(same_text("abc", "abc"));
    assert!(!same_text("abc", "abd"));
    assert!(!same_text("abc", "ab"));
}

#[test]
fn failures_are_written_with_their_kind() {
    let cases = [
        (AppError::NotFound("m".to_string()), ErrorKind::NotFound, 404, "NotFound", "Not found: m"),
        (
            AppError::ValidationError("m".to_string()),
            ErrorKind::ValidationError,
            400,
            "ValidationError",
            "Validation error: m",
        ),
        (AppError::Conflict("m".to_string()), ErrorKind::Conflict, 409, "Conflict", "Conflict: m"),
        (
            AppError::DatabaseError("m".to_string()),
            ErrorKind::DatabaseError,
            500,
            "DatabaseError",
            "Database error: m",
        ),
        (
            AppError::InternalError("m".to_string()),
            ErrorKind::InternalError,
            500,
            "InternalError",
            "Internal error: m",
        ),
        (
            AppError::BadRequest("m".to_string()),
            ErrorKind::BadRequest,
            400,
            "BadRequest",
            "Bad request: m",
        ),
        (
            AppError::SchemaValidationError("m".to_string()),
            ErrorKind::SchemaValidationError,
            422,
            "SchemaValidationError",
            "Schema validation error: m",
        ),
    ];
    for (error, kind, status, name, text) in cases {
        assert_eq!(error.kind(), kind);
        assert_eq!(error.detail(), "m");
        assert_eq!(error.status_code(), status);
        assert_eq!(error.error_type(), name);
        assert_eq!(error.to_string(), text);
        let shown = match kind {
            ErrorKind::DatabaseError => "A database error occurred",
            ErrorKind::InternalError => "An internal error occurred",
            _ => "m",
        };
        assert_eq!(error.into_response(), (status, name.to_string(), shown.to_string()));
    }
}

#[test]
fn store_failures_are_translated() {
    let unique = StoreFailure::Database {
        code: Some("23505".to_string()),
        message: "duplicate key".to_string(),
    };
    match AppError::from_store_failure(unique) {
        AppError::Conflict(m) => assert_eq!(m, "A resource with these attributes already exists"),
        other => panic!("unexpected {:?}", other),
    }
    let foreign = StoreFailure::Database {
        code: Some("23503".to_string()),
        message: "foreign key".to_string(),
    };
    match AppError::from_store_failure(foreign) {
        AppError::BadRequest(m) => assert_eq!(m, "Referenced resource does not exist"),
        other => panic!("unexpected {:?}", other),
    }
    let other_code = StoreFailure::Database {
        code: Some("42601".to_string()),
        message: "syntax error".to_string(),
    };
    match AppError::from_store_failure(other_code) {
        AppError::DatabaseError(m) => assert_eq!(m, "syntax error"),
        other => panic!("unexpected {:?}", other),
    }
    let no_code = StoreFailure::Database { code: None, message: "odd".to_string() };
    assert_eq!(AppError::from_store_failure(no_code).to_string(), "Database error: odd");
    match AppError::from_store_failure(StoreFailure::RowNotFound) {
        AppError::NotFound(m) => assert_eq!(m, "Resource not found"),
        other => panic!("unexpected {:?}", other),
    }
    match AppError::from_store_failure(StoreFailure::Other("timed out".to_string())) {
        AppError::DatabaseError(m) => assert_eq!(m, "timed out"),
        other => panic!("unexpected {:?}", other),
    }
    match AppError::from(sqlx::Error::RowNotFound) {
        AppError::NotFound(m) => assert_eq!(m, "Resource not found"),
        other => panic!("unexpected {:?}", other),
    }
    let expected = sqlx::Error::PoolTimedOut.to_string();
    match AppError::from(sqlx::Error::PoolTimedOut) {
        AppError::DatabaseError(m) => assert_eq!(m, expected),
        other => panic!("unexpected {:?}", other),
    }
}

#[test]
fn error_responses_hold_what_they_are_given() {
    let plain = ErrorResponse::new("NOT_FOUND", "nothing here");
    assert_eq!(plain.error, "NOT_FOUND");
    assert_eq!(plain.message, "nothing here");
    assert!(plain.field_errors.is_none());
    let mut fields = HashMap::new();
    fields.insert("name".to_string(), vec!["too long".to_string(), "not ascii".to_string()]);
    let detailed = ErrorResponse::with_field_errors("INVALID_INPUT", "bad fields", fields.clone());
    assert_eq!(detailed.error, "INVALID_INPUT");
    assert_eq!(detailed.message, "bad fields");
    assert_eq!(detailed.field_errors, Some(fields));
}

#[test]
fn failed_requests_are_reported_by_kind() {
    let conflict = AppError::Conflict("c".to_string());
    let invalid = AppError::SchemaValidationError("s".to_string());
    let blank = AppError::ValidationError("v".to_string());
    let missing = AppError::NotFound("n".to_string());
    let store = AppError::DatabaseError("d".to_string());
    let internal = AppError::InternalError("i".to_string());
    let (status, body) = schema_write_failure(&conflict, "CREATION_FAILED");
    assert_eq!((status, body.error.as_str(), body.message.as_str()), (409, "SCHEMA_CONFLICT", "Conflict: c"));
    let (status, body) = schema_write_failure(&invalid, "CREATION_FAILED");
    assert_eq!((status, body.error.as_str()), (400, "INVALID_SCHEMA"));
    let (status, body) = schema_write_failure(&blank, "UPDATE_FAILED");
    assert_eq!(
        (status, body.error.as_str(), body.message.as_str()),
        (400, "INVALID_INPUT", "Validation error: v")
    );
    let (status, body) = schema_write_failure(&store, "CREATION_FAILED");
    assert_eq!(
        (status, body.error.as_str(), body.message.as_str()),
        (500, "CREATION_FAILED", "A database error occurred")
    );
    let (status, body) = schema_write_failure(&internal, "UPDATE_FAILED");
    assert_eq!(
        (status, body.error.as_str(), body.message.as_str()),
        (500, "UPDATE_FAILED", "An internal error occurred")
    );
    let (status, body) = schema_write_failure(&missing, "UPDATE_FAILED");
    assert_eq!(
        (status, body.error.as_str(), body.message.as_str()),
        (404, "UPDATE_FAILED", "Not found: n")
    );
    let (status, body) = schema_delete_failure(&conflict);
    assert_eq!((status, body.error.as_str()), (409, "SCHEMA_HAS_LOGS"));
    let (status, body) = schema_delete_failure(&store);
    assert_eq!(
        (status, body.error.as_str(), body.message.as_str()),
        (500, "DELETION_FAILED", "A database error occurred")
    );
    let (status, body) = log_write_failure(&missing);
    assert_eq!((status, body.error.as_str(), body.message.as_str()), (404, "NOT_FOUND", "Not found: n"));
    let (status, body) = log_write_failure(&invalid);
    assert_eq!((status, body.error.as_str()), (400, "VALIDATION_FAILED"));
    let (status, body) = log_write_failure(&internal);
    assert_eq!(
        (status, body.error.as_str(), body.message.as_str()),
        (500, "INTERNAL_SERVER_ERROR", "An internal error occurred")
    );
    let (status, body) = log_list_failure(&missing);
    assert_eq!(
        (status, body.error.as_str(), body.message.as_str()),
        (404, "NOT_FOUND", "Not found: n")
    );
    let (status, body) = log_list_failure(&store);
    assert_eq!(
        (status, body.error.as_str(), body.message.as_str()),
        (500, "DATABASE_ERROR", "A database error occurred")
    );
    let (status, body) = log_list_failure(&internal);
    assert_eq!(
        (status, body.error.as_str(), body.message.as_str()),
        (500, "INTERNAL_ERROR", "An internal error occurred")
    );
    let (status, body) = log_list_failure(&conflict);
    assert_eq!((status, body.error.as_str(), body.message.as_str()), (500, "INTERNAL_ERROR", "c"));
    assert_eq!(store.shown(), "A database error occurred");
    assert_eq!(missing.shown(), "n");
}

#[test]
fn parameters_become_a_containment_filter() {
    assert_eq!(translate_filter(Vec::new()), None);
    let params = vec![
        ("n".to_string(), "5".to_string()),
        ("flag".to_string(), "true".to_string()),
        ("level".to_string(), "ERROR".to_string()),
        ("nested".to_string(), r#"{"x":[1,2]}"#.to_string()),
        ("quoted".to_string(), r#""5""#.to_string()),
        ("nothing".to_string(), "null".to_string()),
        ("blank".to_string(), "".to_string()),
    ];
    assert_eq!(
        translate_filter(params),
        Some(json(
            r#"{"n":5,"flag":true,"level":"ERROR","nested":{"x":[1,2]},"quoted":"5","nothing":null,"blank":""}"#
        ))
    );
    let twice = vec![("k".to_string(), "1".to_string()), ("k".to_string(), "two".to_string())];
    assert_eq!(translate_filter(twice), Some(json(r#"{"k":"two"}"#)));
    assert_eq!(decode_param("1.5".to_string()), json("1.5"));
    assert_eq!(decode_param("1.5.0".to_string()), Value::String("1.5.0".to_string()));
    assert_eq!(decoded_or_text(None, "raw".to_string()), Value::String("raw".to_string()));
    assert_eq!(decoded_or_text(Some(json("[1]")), "raw".to_string()), json("[1]"));
}

#[test]
fn containment_asks_for_every_member_of_the_filter() {
    let data = json(r#"{"level":"ERROR","code":5,"tags":["a","b"],"ctx":{"host":"h1"}}"#);
    assert!(contains_all(&data, &json("{}")));
    assert!(contains_all(&data, &json(r#"{"level":"ERROR"}"#)));
    assert!(contains_all(&data, &json(r#"{"code":5,"level":"ERROR"}"#)));
    assert!(contains_all(&data, &json(r#"{"tags":["a","b"]}"#)));
    assert!(contains_all(&data, &json(r#"{"ctx":{"host":"h1"}}"#)));
    assert!(!contains_all(&data, &json(r#"{"level":"INFO"}"#)));
    assert!(!contains_all(&data, &json(r#"{"code":"5"}"#)));
    assert!(!contains_all(&data, &json(r#"{"code":5.0}"#)));
    assert!(!contains_all(&data, &json(r#"{"absent":null}"#)));
    assert!(!contains_all(&data, &json(r#"{"level":"ERROR","absent":1}"#)));
    assert!(!contains_all(&json("[1]"), &json(r#"{"a":1}"#)));
    assert!(passes_filter(&None, &data));
    assert!(passes_filter(&Some(json("[1,2]")), &data));
    assert!(passes_filter(&Some(json(r#"{"code":5}"#)), &data));
    assert!(!passes_filter(&Some(json(r#"{"code":6}"#)), &data));
}

#[test]
fn definitions_must_be_objects_that_compile() {
    assert!(validate_schema_definition(&json(MESSAGE_SCHEMA)).is_ok());
    assert!(validate_schema_definition(&json("{}")).is_ok());
    match validate_schema_definition(&json(r#""type""#)) {
        Err(AppError::SchemaValidationError(m)) => {
            assert_eq!(m, "Schema definition must be a JSON object")
        }
        other => panic!("unexpected {:?}", other),
    }
    match validate_schema_definition(&json(r#"{"type":"invalid_type"}"#)) {
        Err(AppError::SchemaValidationError(m)) => {
            assert!(m.starts_with("Invalid JSON Schema: "));
            assert!(m.len() > "Invalid JSON Schema: ".len());
        }
        other => panic!("unexpected {:?}", other),
    }
    assert!(definition_outcome(true, None).is_ok());
    match definition_outcome(true, Some("bad".to_string())) {
        Err(AppError::SchemaValidationError(m)) => assert_eq!(m, "Invalid JSON Schema: bad"),
        other => panic!("unexpected {:?}", other),
    }
    match definition_outcome(false, Some("bad".to_string())) {
        Err(AppError::SchemaValidationError(m)) => {
            assert_eq!(m, "Schema definition must be a JSON object")
        }
        other => panic!("unexpected {:?}", other),
    }
    match check_input(" ", "1", &json("{}")) {
        Err(AppError::ValidationError(m)) => assert_eq!(m, "Schema name cannot be empty"),
        other => panic!("unexpected {:?}", other),
    }
    match check_input("n", "", &json("{}")) {
        Err(AppError::ValidationError(m)) => assert_eq!(m, "Schema version cannot be empty"),
        other => panic!("unexpected {:?}", other),
    }
    assert!(check_input("n", "1", &json("{}")).is_ok());
}

#[test]
fn violations_are_reported_all_together() {
    assert!(instance_outcome(Ok(Vec::new())).is_ok());
    let errors = vec![
        PathError { path: "/a".to_string(), reason: "1 is not of type \"string\"".to_string() },
        PathError { path: "".to_string(), reason: "\"b\" is a required property".to_string() },
    ];
    assert_eq!(format_violation(&errors[0]), "Validation error at '/a': 1 is not of type \"string\"");
    match instance_outcome(Ok(errors)) {
        Err(AppError::SchemaValidationError(m)) => assert_eq!(
            m,
            "Schema validation failed: Validation error at '/a': 1 is not of type \"string\"; Validation error at '': \"b\" is a required property"
        ),
        other => panic!("unexpected {:?}", other),
    }
    match instance_outcome(Err("no such draft".to_string())) {
        Err(AppError::InternalError(m)) => assert_eq!(m, "Invalid JSON schema: no such draft"),
        other => panic!("unexpected {:?}", other),
    }
    let definition = json(MESSAGE_SCHEMA);
    assert!(validate_log_against_schema(&json(r#"{"message":"hi"}"#), &definition).is_ok());
    assert!(validate_log_against_schema(&json(r#"{"message":"hi","more":1}"#), &definition).is_ok());
    match validate_log_against_schema(&json(r#"{"message":7}"#), &definition) {
        Err(AppError::SchemaValidationError(m)) => {
            assert!(m.starts_with("Schema validation failed: Validation error at '/message': "))
        }
        other => panic!("unexpected {:?}", other),
    }
    match validate_log_against_schema(&json("{}"), &json(r#"{"type":"invalid_type"}"#)) {
        Err(AppError::InternalError(m)) => assert!(m.starts_with("Invalid JSON schema: ")),
        other => panic!("unexpected {:?}", other),
    }
}

#[test]
fn instants_are_written_as_rfc_3339() {
    assert_eq!(to_rfc3339(0), "1970-01-01T00:00:00+00:00");
    assert_eq!(to_rfc3339(1662921288000000), "2022-09-11T18:34:48+00:00");
    assert_eq!(to_rfc3339(1_000_000_000_000_555), "2001-09-09T01:46:40.000555+00:00");
    assert_eq!(to_rfc3339(-1), "1969-12-31T23:59:59.999999+00:00");
    assert_eq!(to_rfc3339(i64::MAX), "");
    let log = Log { id: 4, schema_id: 9, log_data: json(r#"{"a":1}"#), created_at: 1_500_000 };
    let response = LogResponse::from(log.clone());
    assert_eq!(response.id, 4);
    assert_eq!(response.schema_id, 9);
    assert_eq!(response.log_data, json(r#"{"a":1}"#));
    assert_eq!(response.created_at, "1970-01-01T00:00:01.500+00:00");
    match LogEvent::created_from(log.clone()) {
        LogEvent::Created { id, schema_id, log_data, created_at } => {
            assert_eq!((id, schema_id), (4, 9));
            assert_eq!(log_data, json(r#"{"a":1}"#));
            assert_eq!(created_at, "1970-01-01T00:00:01.500+00:00");
        }
        other => panic!("unexpected {:?}", other),
    }
    match LogEvent::deleted_from(log) {
        LogEvent::Deleted { id, schema_id } => assert_eq!((id, schema_id), (4, 9)),
        other => panic!("unexpected {:?}", other),
    }
    let schema = Schema {
        id: 3,
        name: "n".to_string(),
        version: "v".to_string(),
        description: Some("d".to_string()),
        schema_definition: json("{}"),
        created_at: 0,
        updated_at: 1_000_000,
    };
    let copy = schema.clone();
    assert_eq!((copy.id, copy.name.as_str(), copy.updated_at), (3, "n", 1_000_000));
    let shown = SchemaResponse::from(schema);
    assert_eq!(shown.created_at, "1970-01-01T00:00:00+00:00");
    assert_eq!(shown.updated_at, "1970-01-01T00:00:01+00:00");
    assert_eq!(shown.description, Some("d".to_string()));
}

#[test]
fn request_identifiers_are_kept_or_made() {
    assert_eq!(RequestIdLayer::request_id(Some("abc-123".to_string())), "abc-123");
    let fresh = RequestIdLayer::request_id(None);
    assert_eq!(fresh.len(), 36);
    assert_eq!(uuid::Uuid::parse_str(&fresh).unwrap().to_string(), fresh);
    assert_ne!(fresh, RequestIdLayer::request_id(None));
    assert_eq!(RequestIdMakeSpan::span_request_id(None), "unknown");
    assert_eq!(RequestIdMakeSpan::span_request_id(Some("r1".to_string())), "r1");
    assert_eq!(log_server::middleware::request_id::REQUEST_ID_HEADER, "X-Request-ID");
    let _ = RequestIdLayer::new();
    let _ = RequestIdLayer::default();
    assert!(is_nil(0));
    assert!(!is_nil(1));
    assert!(is_nil(uuid::Uuid::nil().as_u128()));
}

#[test]
fn each_pair_of_filters_is_a_query_of_its_own() {
    assert!(matches!(select_query(None), SchemaQuery::All));
    assert!(matches!(select_query(Some(SchemaQueryParams::default())), SchemaQuery::All));
    let by_name = SchemaQueryParams { name: Some("n".to_string()), version: None };
    assert!(matches!(select_query(Some(by_name)), SchemaQuery::ByName(n) if n == "n"));
    let by_version = SchemaQueryParams { name: None, version: Some("v".to_string()) };
    assert!(matches!(select_query(Some(by_version)), SchemaQuery::ByVersion(v) if v == "v"));
    let both = SchemaQueryParams { name: Some("n".to_string()), version: Some("v".to_string()) };
    let query = select_query(Some(both));
    assert!(matches!(&query, SchemaQuery::ByNameAndVersion(n, v) if n == "n" && v == "v"));
    let schema = Schema {
        id: 1,
        name: "n".to_string(),
        version: "w".to_string(),
        description: None,
        schema_definition: json("{}"),
        created_at: 0,
        updated_at: 0,
    };
    assert!(!query.admits(&schema));
    assert!(SchemaQuery::ByName("n".to_string()).admits(&schema));
    assert!(SchemaQuery::All.admits(&schema));
}

#[test]
fn registry_keeps_identifiers_names_and_order() {
    let service = SchemaService::new();
    let mut schemas = MemorySchemaRepository::new();
    let mut logs = MemoryLogRepository::new();
    let make = |service: &SchemaService, schemas: &mut MemorySchemaRepository, id, now, name: &str| {
        service.create_schema_with(
            schemas,
            id,
            now,
            name.to_string(),
            "1.0.0".to_string(),
            None,
            json(MESSAGE_SCHEMA),
        )
    };
    let first = make(&service, &mut schemas, 1, 100, "a").unwrap();
    assert_eq!((first.id, first.created_at, first.updated_at), (1, 100, 100));
    make(&service, &mut schemas, 2, 300, "b").unwrap();
    make(&service, &mut schemas, 3, 200, "c").unwrap();
    match make(&service, &mut schemas, 1, 400, "d") {
        Err(AppError::Conflict(m)) => {
            assert_eq!(m, "A resource with these attributes already exists")
        }
        other => panic!("unexpected {:?}", other),
    }
    match make(&service, &mut schemas, 4, 400, "a") {
        Err(AppError::Conflict(m)) => {
            assert_eq!(m, "Schema with name 'a' and version '1.0.0' already exists")
        }
        other => panic!("unexpected {:?}", other),
    }
    let all = service.get_all_schemas(&schemas, None).unwrap();
    let order: Vec<u128> = all.iter().map(|s| s.id).collect();
    assert_eq!(order, vec![2, 3, 1]);
    let updated = service
        .update_schema_at(
            &mut schemas,
            1,
            900,
            "a".to_string(),
            "2.0.0".to_string(),
            Some("second".to_string()),
            json("{}"),
        )
        .unwrap()
        .unwrap();
    assert_eq!((updated.id, updated.created_at, updated.updated_at), (1, 100, 900));
    assert_eq!(updated.version, "2.0.0");
    let order: Vec<u128> =
        service.get_all_schemas(&schemas, None).unwrap().iter().map(|s| s.id).collect();
    assert_eq!(order, vec![2, 3, 1]);
    match service.update_schema_at(
        &mut schemas,
        1,
        950,
        "b".to_string(),
        "1.0.0".to_string(),
        None,
        json("{}"),
    ) {
        Err(AppError::Conflict(m)) => assert_eq!(
            m,
            "Schema with name 'b' and version '1.0.0' already exists with a different ID"
        ),
        other => panic!("unexpected {:?}", other),
    }
    match service.update_schema_at(
        &mut schemas,
        1,
        950,
        "a".to_string(),
        " ".to_string(),
        None,
        json("{}"),
    ) {
        Err(AppError::ValidationError(m)) => assert_eq!(m, "Schema version cannot be empty"),
        other => panic!("unexpected {:?}", other),
    }
    assert!(service
        .update_schema_at(&mut schemas, 77, 950, "z".to_string(), "1".to_string(), None, json("{}"))
        .unwrap()
        .is_none());
    assert!(service.get_schema_by_id(&schemas, 77).unwrap().is_none());
    assert_eq!(service.get_by_name_and_version(&schemas, "a", "2.0.0").unwrap().unwrap().id, 1);
    assert!(!service.delete_schema(&mut schemas, &mut logs, 77, true).unwrap());
    assert!(service.delete_schema(&mut schemas, &mut logs, 3, false).unwrap());
    assert!(schemas.get_by_id(3).unwrap().is_none());
    assert_eq!(schemas.get_all(None).unwrap().len(), 2);
}

#[test]
fn ingestion_stores_what_conforms_latest_first() {
    let schemas_service = SchemaService::new();
    let service = LogService::new();
    let mut schemas = MemorySchemaRepository::new();
    let mut logs = MemoryLogRepository::new();
    schemas_service
        .create_schema_with(
            &mut schemas,
            5,
            0,
            "s".to_string(),
            "1.0.0".to_string(),
            None,
            json(MESSAGE_SCHEMA),
        )
        .unwrap();
    let a = service.create_log_at(&schemas, &mut logs, 5, json(r#"{"message":"a"}"#), 10).unwrap();
    let b = service.create_log_at(&schemas, &mut logs, 5, json(r#"{"message":"b"}"#), 30).unwrap();
    let c = service.create_log_at(&schemas, &mut logs, 5, json(r#"{"message":"c"}"#), 20).unwrap();
    assert_eq!((a.id, b.id, c.id), (1, 2, 3));
    assert_eq!((a.schema_id, a.created_at), (5, 10));
    assert!(service.create_log_at(&schemas, &mut logs, 5, json(r#"{"other":1}"#), 40).is_err());
    match service.create_log_at(&schemas, &mut logs, 6, json(r#"{"message":"a"}"#), 40) {
        Err(AppError::NotFound(m)) => {
            assert_eq!(m, format!("Schema with id '{}' not found", uuid::Uuid::from_u128(6)))
        }
        other => panic!("unexpected {:?}", other),
    }
    let listed = service.get_logs_by_schema_id(&logs, 5, None).unwrap();
    let order: Vec<i32> = listed.iter().map(|l| l.id).collect();
    assert_eq!(order, vec![2, 3, 1]);
    let some = service
        .get_logs_by_schema_name_and_id(
            &schemas,
            &logs,
            "s",
            "1.0.0",
            Some(json(r#"{"message":"c"}"#)),
        )
        .unwrap();
    assert_eq!(some.len(), 1);
    assert_eq!(some[0].id, 3);
    match service.get_logs_by_schema_name_and_id(&schemas, &logs, "s", "2", None) {
        Err(AppError::NotFound(m)) => {
            assert_eq!(m, "Schema with name:version 's:2' not found")
        }
        other => panic!("unexpected {:?}", other),
    }
    assert_eq!(logs.count_by_schema_id(5).unwrap(), 3);
    assert_eq!(logs.count_by_schema_id(6).unwrap(), 0);
    assert!(service.delete_log(&mut logs, 2).unwrap());
    assert!(!service.delete_log(&mut logs, 2).unwrap());
    assert!(service.get_log_by_id(&logs, 2).unwrap().is_none());
    assert_eq!(service.get_log_by_id(&logs, 3).unwrap().unwrap().created_at, 20);
    assert_eq!(logs.delete_by_schema_id(5).unwrap(), 2);
    assert_eq!(logs.delete_by_schema_id(5).unwrap(), 0);
    assert!(logs.get_by_schema_id(5, None).unwrap().is_empty());
}

#[test]
fn conforming_log_is_echoed_and_another_names_what_is_missing() {
    let mut state = AppState::new(
        MemorySchemaRepository::new(),
        MemoryLogRepository::new(),
        EventBroadcaster::new(8),
    );
    let payload = CreateSchemaRequest {
        name: "s".to_string(),
        version: "1.0.0".to_string(),
        description: None,
        schema_definition: json(MESSAGE_SCHEMA),
    };
    let (_, _, schema) = create_schema(&mut state, payload).unwrap();
    let good = CreateLogRequest { schema_id: schema.id, log_data: json(r#"{"message":"hi"}"#) };
    let (status, log) = create_log(&mut state, good).unwrap();
    assert_eq!(status, 201);
    assert_eq!(log.log_data, json(r#"{"message":"hi"}"#));
    let bad = CreateLogRequest { schema_id: schema.id, log_data: json(r#"{"other":"x"}"#) };
    let (_, error) = create_log(&mut state, bad).unwrap_err();
    assert!(error.message.starts_with("Schema validation error: "));
    assert!(error.message.contains("\"message\" is a required property"));
}

#[test]
fn of_two_equal_creations_exactly_one_succeeds() {
    for first_description in [None, Some("x".to_string())] {
        let mut state = AppState::new(
            MemorySchemaRepository::new(),
            MemoryLogRepository::new(),
            EventBroadcaster::new(8),
        );
        let one = CreateSchemaRequest {
            name: "dup".to_string(),
            version: "1.0.0".to_string(),
            description: first_description,
            schema_definition: json(MESSAGE_SCHEMA),
        };
        let other = CreateSchemaRequest {
            name: "dup".to_string(),
            version: "1.0.0".to_string(),
            description: Some("later".to_string()),
            schema_definition: json("{}"),
        };
        let outcomes = [create_schema(&mut state, one), create_schema(&mut state, other)];
        assert_eq!(outcomes.iter().filter(|r| r.is_ok()).count(), 1);
        match &outcomes[1] {
            Err((status, body)) => assert_eq!((*status, body.error.as_str()), (409, "SCHEMA_CONFLICT")),
            Ok(_) => panic!("the second creation must not succeed"),
        }
    }
}

#[test]
fn subscriber_sees_one_event_for_each_change() {
    let mut state = AppState::new(
        MemorySchemaRepository::new(),
        MemoryLogRepository::new(),
        EventBroadcaster::new(8),
    );
    let payload = CreateSchemaRequest {
        name: "s".to_string(),
        version: "1.0.0".to_string(),
        description: None,
        schema_definition: json(MESSAGE_SCHEMA),
    };
    let schema_id = create_schema(&mut state, payload).unwrap().2.id;
    let subscriber = ws_handler(&mut state, WebSocketQuery { schema_id: None }).unwrap();
    state.log_broadcast.signal(subscriber, SessionSignal::Upgraded);
    let request = CreateLogRequest { schema_id, log_data: json(r#"{"message":"hi"}"#) };
    let log_id = create_log(&mut state, request).unwrap().1.id;
    match state.log_broadcast.next_event(subscriber) {
        Some(LogEvent::Created { id, schema_id: s, .. }) => assert_eq!((id, s), (log_id, schema_id)),
        other => panic!("unexpected {:?}", other),
    }
    assert!(state.log_broadcast.next_event(subscriber).is_none());
    delete_log(&mut state, log_id).unwrap();
    match state.log_broadcast.next_event(subscriber) {
        Some(LogEvent::Deleted { id, schema_id: s }) => assert_eq!((id, s), (log_id, schema_id)),
        other => panic!("unexpected {:?}", other),
    }
    assert!(state.log_broadcast.next_event(subscriber).is_none());
}

#[test]
fn only_an_object_filters() {
    assert_eq!(structural(None), None);
    assert_eq!(structural(Some(json("[1]"))), None);
    assert_eq!(structural(Some(json("5"))), None);
    assert_eq!(structural(Some(json(r#"{"a":1}"#))), Some(json(r#"{"a":1}"#)));
    assert_eq!(structural(Some(json("{}"))), Some(json("{}")));
}

#[test]
fn definitions_are_read_in_the_dialect_of_ingestion() {
    let mut state = AppState::new(
        MemorySchemaRepository::new(),
        MemoryLogRepository::new(),
        EventBroadcaster::new(8),
    );
    let payload = CreateSchemaRequest {
        name: "draft-four".to_string(),
        version: "1.0.0".to_string(),
        description: None,
        schema_definition: json(
            r#"{"$schema":"http://json-schema.org/draft-04/schema#","type":"object","properties":{"n":{"minimum":1,"exclusiveMinimum":true}}}"#,
        ),
    };
    let (status, error) = create_schema(&mut state, payload).unwrap_err();
    assert_eq!(status, 400);
    assert_eq!(error.error, "INVALID_SCHEMA");
    assert!(error.message.starts_with("Schema validation error: Invalid JSON Schema: "));
    let draft_seven = CreateSchemaRequest {
        name: "draft-seven".to_string(),
        version: "1.0.0".to_string(),
        description: None,
        schema_definition: json(
            r#"{"$schema":"http://json-schema.org/draft-07/schema#","type":"object","properties":{"n":{"exclusiveMinimum":1}}}"#,
        ),
    };
    let schema_id = create_schema(&mut state, draft_seven).unwrap().2.id;
    let request = CreateLogRequest { schema_id, log_data: json(r#"{"n":2}"#) };
    assert_eq!(create_log(&mut state, request).unwrap().0, 201);
    let request = CreateLogRequest { schema_id, log_data: json(r#"{"n":1}"#) };
    assert_eq!(create_log(&mut state, request).unwrap_err().0, 400);
}

#[test]
fn validation_lists_each_violation_with_its_path() {
    let definition = json(
        r#"{"type":"object","properties":{"a":{"type":"string"},"b":{"type":"object","properties":{"c":{"type":"integer"}}}},"required":["a"]}"#,
    );
    assert!(validate(&definition, &json(r#"{"a":"x","b":{"c":1}}"#)).unwrap().is_empty());
    let errors = validate(&definition, &json(r#"{"b":{"c":"one"}}"#)).unwrap();
    let mut paths: Vec<&str> = errors.iter().map(|e| e.path.as_str()).collect();
    paths.sort();
    assert_eq!(paths, vec!["", "/b/c"]);
    assert!(errors.iter().all(|e| !e.reason.is_empty()));
    match validate(&json(r#"{"type":"invalid_type"}"#), &json("{}")) {
        Err(AppError::InternalError(m)) => assert!(m.starts_with("Invalid JSON schema: ")),
        other => panic!("unexpected {:?}", other),
    }
}
