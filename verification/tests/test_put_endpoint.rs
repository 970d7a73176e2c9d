use rind::addr::Ipv4Addr;
use rind::api::{respond, respond_at, STATUS_OK};
use rind::clock::Timestamp;
use rind::update::{
    create_record_with, get_record, save_records_to_file, update_record, update_record_at,
    DatastoreProvider, DnsRecord, DnsRecords, RecordError, UpdateRecordRequest, ValidationError,
};
use std::cell::{Cell, RefCell};

struct Memory {
    saved: RefCell<Option<String>>,
    fail: Cell<bool>,
}

impl Memory {
    fn new() -> Memory {
        Memory { saved: RefCell::new(None), fail: Cell::new(false) }
    }
}

impl DatastoreProvider for Memory {
    fn initialize(&self) -> Result<(), String> {
        Ok(())
    }
    fn health_check(&self) -> Result<bool, String> {
        Ok(true)
    }
    fn load_all_records(&self) -> Result<DnsRecords, String> {
        Ok(DnsRecords::new())
    }
    fn save_all_records(&self, records: &DnsRecords) -> Result<(), String> {
        if self.fail.get() {
            return Err("disk full".to_string());
        }
        *self.saved.borrow_mut() = Some(save_records_to_file(records));
        Ok(())
    }
}

const ID: &str = "550e8400-e29b-41d4-a716-446655440000";
const OTHER: &str = "6ba7b810-9dad-11d1-80b4-00c04fd430c8";

fn patch() -> UpdateRecordRequest {
    UpdateRecordRequest { name: None, ip: None, ttl: None, record_type: None, class: None, value: None }
}

fn store_with_test_record(provider: &Memory) -> DnsRecords {
    let mut records = DnsRecords::new();
    create_record_with(
        &mut records,
        provider,
        ID.to_string(),
        Timestamp::new(1000, 0),
        "test.example.com".to_string(),
        Some(Ipv4Addr::new(192, 168, 1, 1)),
        300,
        "A".to_string(),
        "IN".to_string(),
        None,
    )
    .unwrap();
    records
}

#[test]
fn test_put_record_success() {
    let provider = Memory::new();
    let mut records = store_with_test_record(&provider);
    let update_request = UpdateRecordRequest {
        name: Some("updated.example.com".to_string()),
        ip: Some("10.0.0.1".to_string()),
        ttl: Some(600),
        record_type: None,
        class: None,
        value: None,
    };
    let (status, body) = respond(update_record(&mut records, &provider, ID, update_request), STATUS_OK);
    assert_eq!(status, 200);
    assert!(body.success);
    assert!(body.data.is_some());
    let updated_record = body.data.unwrap();
    assert_eq!(updated_record.name, "updated.example.com");
    assert_eq!(updated_record.ip, Some(Ipv4Addr::new(10, 0, 0, 1)));
    assert_eq!(updated_record.ttl, 600);
    assert_eq!(updated_record.record_type, "A");
    assert_eq!(updated_record.class, "IN");
    assert_eq!(get_record(&records, ID).unwrap(), updated_record);
}

#[test]
fn test_put_record_not_found() {
    let provider = Memory::new();
    let mut records = store_with_test_record(&provider);
    let mut update_request = patch();
    update_request.name = Some("updated.example.com".to_string());
    let (status, body) =
        respond(update_record(&mut records, &provider, "non-existent-id", update_request), STATUS_OK);
    assert_eq!(status, 404);
    assert!(!body.success);
    assert!(body.error.is_some());
    assert!(body.error.unwrap().contains("not found"));
}

#[test]
fn test_put_record_validation_error() {
    let provider = Memory::new();
    let mut records = store_with_test_record(&provider);
    let mut update_request = patch();
    update_request.ip = Some("invalid-ip".to_string());
    let (status, body) = respond(update_record(&mut records, &provider, ID, update_request), STATUS_OK);
    assert_eq!(status, 400);
    assert!(!body.success);
    assert!(body.error.is_some());
    assert!(body.error.unwrap().contains("Invalid IP address"));
    assert_eq!(get_record(&records, ID).unwrap().ip, Some(Ipv4Addr::new(192, 168, 1, 1)));
}

#[test]
fn test_put_record_partial_update() {
    let provider = Memory::new();
    let mut records = store_with_test_record(&provider);
    let stored = get_record(&records, ID).unwrap();
    let mut update_request = patch();
    update_request.ttl = Some(900);
    let (status, body) = respond(update_record(&mut records, &provider, ID, update_request), STATUS_OK);
    assert_eq!(status, 200);
    assert!(body.success);
    let updated_record = body.data.unwrap();
    assert_eq!(updated_record.name, stored.name);
    assert_eq!(updated_record.ip, stored.ip);
    assert_eq!(updated_record.ttl, 900);
}

#[test]
fn update_keeps_id_and_creation_time_and_moves_updated_at_forward() {
    let provider = Memory::new();
    let mut records = store_with_test_record(&provider);
    let mut p = patch();
    p.ttl = Some(600);
    let r = update_record_at(&mut records, &provider, ID, p, Timestamp::new(2000, 7)).unwrap();
    assert_eq!(r.id, ID);
    assert_eq!(r.created_at, Timestamp::new(1000, 0));
    assert_eq!(r.updated_at, Timestamp::new(2000, 7));
    // a clock that went back does not move updated_at back
    let mut p = patch();
    p.ttl = Some(700);
    let r = update_record_at(&mut records, &provider, ID, p, Timestamp::new(1500, 0)).unwrap();
    assert_eq!(r.ttl, 700);
    assert_eq!(r.updated_at, Timestamp::new(2000, 7));
    assert_eq!(r.created_at, Timestamp::new(1000, 0));
}

#[test]
fn empty_value_clears_and_empty_ip_clears() {
    let provider = Memory::new();
    let mut records = DnsRecords::new();
    create_record_with(
        &mut records,
        &provider,
        ID.to_string(),
        Timestamp::new(1, 0),
        "mx.example.com".to_string(),
        Some(Ipv4Addr::new(1, 1, 1, 1)),
        300,
        "MX".to_string(),
        "IN".to_string(),
        Some("mail".to_string()),
    )
    .unwrap();
    let mut p = patch();
    p.value = Some(String::new());
    p.ip = Some(String::new());
    let r = update_record_at(&mut records, &provider, ID, p, Timestamp::new(2, 0)).unwrap();
    assert_eq!(r.value, None);
    assert_eq!(r.ip, None);
    let mut p = patch();
    p.value = Some("other".to_string());
    let r = update_record_at(&mut records, &provider, ID, p, Timestamp::new(3, 0)).unwrap();
    assert_eq!(r.value, Some("other".to_string()));
}

#[test]
fn update_to_a_taken_name_is_a_duplicate_and_changes_nothing() {
    let provider = Memory::new();
    let mut records = store_with_test_record(&provider);
    create_record_with(
        &mut records,
        &provider,
        OTHER.to_string(),
        Timestamp::new(1001, 0),
        "other.example.com".to_string(),
        Some(Ipv4Addr::new(2, 2, 2, 2)),
        300,
        "A".to_string(),
        "IN".to_string(),
        None,
    )
    .unwrap();
    let before = records.values();
    let mut p = patch();
    p.name = Some("test.example.com".to_string());
    let result = update_record_at(&mut records, &provider, OTHER, p, Timestamp::new(5000, 0));
    match &result {
        Err(RecordError::DuplicateRecord(m)) => assert_eq!(
            m,
            "Record with name 'test.example.com' and type 'A' already exists"
        ),
        other => panic!("unexpected {:?}", other),
    }
    assert_eq!(result.unwrap_err().to_status_code(), 409);
    assert_eq!(records.values(), before);
    // keeping its own name is no duplicate
    let mut p = patch();
    p.name = Some("other.example.com".to_string());
    assert!(update_record_at(&mut records, &provider, OTHER, p, Timestamp::new(5000, 0)).is_ok());
}

#[test]
fn update_that_makes_the_record_invalid_changes_nothing() {
    let provider = Memory::new();
    let mut records = store_with_test_record(&provider);
    let before = records.values();
    let mut p = patch();
    p.ttl = Some(604801);
    match update_record_at(&mut records, &provider, ID, p, Timestamp::new(5000, 0)) {
        Err(RecordError::ValidationError(ValidationError::InvalidTtl(_))) => {}
        other => panic!("unexpected {:?}", other),
    }
    let mut p = patch();
    p.record_type = Some("CNAME".to_string());
    match update_record_at(&mut records, &provider, ID, p, Timestamp::new(5000, 0)) {
        Err(RecordError::ValidationError(ValidationError::MissingField(_))) => {}
        other => panic!("unexpected {:?}", other),
    }
    assert_eq!(records.values(), before);
}

#[test]
fn update_that_cannot_be_saved_is_undone() {
    let provider = Memory::new();
    let mut records = store_with_test_record(&provider);
    let before = records.values();
    provider.fail.set(true);
    let mut p = patch();
    p.ttl = Some(600);
    let result = update_record_at(&mut records, &provider, ID, p, Timestamp::new(5000, 0));
    match &result {
        Err(RecordError::IoError(m)) => assert_eq!(m, "disk full"),
        other => panic!("unexpected {:?}", other),
    }
    let (status, body): (u16, _) = respond_at(result, STATUS_OK, "2024-01-01T00:00:00+00:00".to_string());
    assert_eq!(status, 500);
    assert_eq!(body.error.unwrap(), "IO error: disk full");
    assert_eq!(body.timestamp, "2024-01-01T00:00:00+00:00");
    assert_eq!(records.values(), before);
}

#[test]
fn record_equality_is_by_field() {
    let provider = Memory::new();
    let records = store_with_test_record(&provider);
    let a: DnsRecord = get_record(&records, ID).unwrap();
    let mut b = a.clone();
    assert_eq!(a, b);
    b.ttl += 1;
    assert_ne!(a, b);
}
