use rind::api::{respond, respond_at, STATUS_CREATED, STATUS_NO_CONTENT, STATUS_OK};
use rind::metrics::{api_error_type, operation_counter, LogConfig, LogFormat, OperationCounter};
use rind::update::{ApiResponse, RecordError, ValidationError};

#[test]
fn test_log_config_from_env() {
    // Test default configuration
    let config = LogConfig::default();
    assert_eq!(config.level, "info");
    assert!(matches!(config.format, LogFormat::Json));

    // Test settings as the environment gives them
    let config = LogConfig::from_env(Some("debug".to_string()), Some("text".to_string()), None);
    assert_eq!(config.level, "debug");
    assert!(matches!(config.format, LogFormat::Text));
}

#[test]
fn log_format_follows_the_settings() {
    let production = Some("production".to_string());
    let cases = [
        (Some("text"), None, LogFormat::Text),
        (Some("json"), None, LogFormat::Json),
        (Some("text"), production.clone(), LogFormat::Text),
        (Some("json"), Some("development".to_string()), LogFormat::Json),
        (None, production.clone(), LogFormat::Json),
        (Some("yaml"), production.clone(), LogFormat::Json),
        (None, None, LogFormat::Text),
        (Some("JSON"), None, LogFormat::Text),
        (Some(""), Some("Production".to_string()), LogFormat::Text),
    ];
    for (format, environment, expected) in cases {
        let config = LogConfig::from_env(None, format.map(|f| f.to_string()), environment);
        assert_eq!(config.format, expected);
        assert_eq!(config.level, "info");
    }
}

#[test]
fn operations_have_their_counters() {
    assert_eq!(operation_counter("create"), Some(OperationCounter::Created));
    assert_eq!(operation_counter("update"), Some(OperationCounter::Updated));
    assert_eq!(operation_counter("delete"), Some(OperationCounter::Deleted));
    assert_eq!(operation_counter("read"), None);
    assert_eq!(operation_counter("list"), None);
    assert_eq!(operation_counter("Create"), None);
    assert_eq!(operation_counter(""), None);
}

#[test]
fn statuses_have_their_error_labels() {
    assert_eq!(api_error_type(200), None);
    assert_eq!(api_error_type(201), None);
    assert_eq!(api_error_type(204), None);
    assert_eq!(api_error_type(399), None);
    assert_eq!(api_error_type(400), Some("bad_request"));
    assert_eq!(api_error_type(401), Some("unauthorized"));
    assert_eq!(api_error_type(403), Some("forbidden"));
    assert_eq!(api_error_type(404), Some("not_found"));
    assert_eq!(api_error_type(409), Some("conflict"));
    assert_eq!(api_error_type(500), Some("internal_server_error"));
    assert_eq!(api_error_type(402), Some("other_error"));
    assert_eq!(api_error_type(503), Some("other_error"));
}

#[test]
fn errors_have_status_message_and_label() {
    let cases = [
        (RecordError::NotFound("x".into()), 404u16, "Record not found: x", "not_found"),
        (
            RecordError::ValidationError(ValidationError::InvalidTtl("TTL too large: 9".into())),
            400,
            "Validation error: Invalid TTL value: TTL too large: 9",
            "validation_error",
        ),
        (
            RecordError::DuplicateRecord("y".into()),
            409,
            "Duplicate record name: y",
            "duplicate_record",
        ),
        (RecordError::IoError("z".into()), 500, "IO error: z", "io_error"),
        (
            RecordError::SerializationError("w".into()),
            500,
            "Serialization error: w",
            "serialization_error",
        ),
    ];
    for (error, status, message, label) in cases {
        assert_eq!(error.to_status_code(), status);
        assert_eq!(error.message(), message);
        assert_eq!(error.label(), label);
    }
    let details = [
        (ValidationError::InvalidDomainName("a b".into()), "Invalid domain name: a b"),
        (ValidationError::InvalidIpAddress("1.2".into()), "Invalid IP address: 1.2"),
        (ValidationError::InvalidRecordType("X".into()), "Invalid record type: X"),
        (ValidationError::InvalidClass("Y".into()), "Invalid class: Y"),
        (ValidationError::MissingField("name".into()), "Missing required field: name"),
        (ValidationError::InvalidArgument("page".into()), "Invalid argument: page"),
    ];
    for (error, message) in details {
        assert_eq!(error.message(), message);
    }
}

#[test]
fn envelope_carries_data_or_error() {
    let ok: ApiResponse<u8> = ApiResponse::success(7);
    assert!(ok.success);
    assert_eq!(ok.data, Some(7));
    assert!(ok.error.is_none());
    assert!(ok.timestamp.contains('T'));
    let failed: ApiResponse<u8> = ApiResponse::error("boom".to_string());
    assert!(!failed.success);
    assert_eq!(failed.data, None);
    assert_eq!(failed.error, Some("boom".to_string()));
    let stamped: ApiResponse<&str> = ApiResponse::success_at("x", "then".to_string());
    assert_eq!(stamped.timestamp, "then");
    let stamped: ApiResponse<&str> = ApiResponse::error_at("no".to_string(), "then".to_string());
    assert_eq!(stamped.timestamp, "then");
    assert_eq!(stamped.error, Some("no".to_string()));
}

#[test]
fn responses_have_the_status_of_their_outcome() {
    assert_eq!(STATUS_OK, 200);
    assert_eq!(STATUS_CREATED, 201);
    assert_eq!(STATUS_NO_CONTENT, 204);
    let (status, body) = respond(Ok::<u8, RecordError>(1), STATUS_CREATED);
    assert_eq!(status, 201);
    assert_eq!(body.data, Some(1));
    let (status, body) = respond_at(
        Err::<u8, RecordError>(RecordError::NotFound("Record with ID 'q' not found".into())),
        STATUS_OK,
        "t".to_string(),
    );
    assert_eq!(status, 404);
    assert_eq!(body.error, Some("Record not found: Record with ID 'q' not found".to_string()));
    assert_eq!(body.timestamp, "t");
    assert!(body.data.is_none());
}
