use rind::addr::Ipv4Addr;
use rind::api::{respond, STATUS_NO_CONTENT, STATUS_OK};
use rind::clock::Timestamp;
use rind::update::{
    create_record_with, delete_record, get_record, list_records, save_records_to_file,
    DatastoreProvider, DnsRecords, RecordError,
};
use std::cell::{Cell, RefCell};

struct Memory {
    saved: RefCell<Option<String>>,
    fail: Cell<bool>,
}

impl Memory {
    fn new() -> Memory {
        Memory { saved: RefCell::new(None), fail: Cell::new(false) }
    }
}

impl DatastoreProvider for Memory {
    fn initialize(&self) -> Result<(), String> {
        Ok(())
    }
    fn health_check(&self) -> Result<bool, String> {
        Ok(true)
    }
    fn load_all_records(&self) -> Result<DnsRecords, String> {
        Ok(DnsRecords::new())
    }
    fn save_all_records(&self, records: &DnsRecords) -> Result<(), String> {
        if self.fail.get() {
            return Err("read-only".to_string());
        }
        *self.saved.borrow_mut() = Some(save_records_to_file(records));
        Ok(())
    }
}

const ID1: &str = "550e8400-e29b-41d4-a716-446655440000";
const ID2: &str = "6ba7b810-9dad-11d1-80b4-00c04fd430c8";

fn add(records: &mut DnsRecords, provider: &Memory, id: &str, name: &str, last: u8, at: i64) {
    create_record_with(
        records,
        provider,
        id.to_string(),
        Timestamp::new(at, 0),
        name.to_string(),
        Some(Ipv4Addr::new(192, 168, 1, last)),
        300,
        "A".to_string(),
        "IN".to_string(),
        None,
    )
    .unwrap();
}

#[test]
fn test_delete_record_success() {
    let provider = Memory::new();
    let mut records = DnsRecords::new();
    add(&mut records, &provider, ID1, "test.example.com", 1, 10);
    let (status, _) = respond(get_record(&records, ID1), STATUS_OK);
    assert_eq!(status, 200);
    assert!(provider.saved.borrow().as_ref().unwrap().contains(ID1));

    let (status, body) = respond(delete_record(&mut records, &provider, ID1), STATUS_NO_CONTENT);
    assert_eq!(status, 204);
    assert!(body.success);

    let (status, body) = respond(get_record(&records, ID1), STATUS_OK);
    assert_eq!(status, 404);
    assert!(!body.success);
    assert!(!provider.saved.borrow().as_ref().unwrap().contains(ID1));
}

#[test]
fn test_delete_record_not_found() {
    let provider = Memory::new();
    let mut records = DnsRecords::new();
    add(&mut records, &provider, ID1, "test.example.com", 1, 10);
    let result = delete_record(&mut records, &provider, "non-existent-id");
    match &result {
        Err(RecordError::NotFound(m)) => assert_eq!(m, "Record with ID 'non-existent-id' not found"),
        other => panic!("unexpected {:?}", other),
    }
    let (status, body) = respond(result, STATUS_NO_CONTENT);
    assert_eq!(status, 404);
    assert!(!body.success);
    assert!(body.error.is_some());
    assert!(body.error.unwrap().contains("not found"));
    assert_eq!(records.len(), 1);
}

#[test]
fn test_delete_record_multiple_records() {
    let provider = Memory::new();
    let mut records = DnsRecords::new();
    add(&mut records, &provider, ID1, "test1.example.com", 1, 10);
    add(&mut records, &provider, ID2, "test2.example.com", 2, 20);
    assert_eq!(records.len(), 2);

    let (status, _) = respond(delete_record(&mut records, &provider, ID1), STATUS_NO_CONTENT);
    assert_eq!(status, 204);

    assert_eq!(records.len(), 1);
    assert!(!records.contains_id(ID1));
    assert!(records.contains_id(ID2));
    let listing = list_records(&records, 1, 50).unwrap();
    assert_eq!(listing.total, 1);
    assert_eq!(listing.records[0].name, "test2.example.com");
    assert_eq!(listing.records[0].ip, Some(Ipv4Addr::new(192, 168, 1, 2)));
    assert_eq!(listing.records[0].ttl, 300);
}

#[test]
fn test_delete_record_idempotent() {
    let provider = Memory::new();
    let mut records = DnsRecords::new();
    add(&mut records, &provider, ID1, "test.example.com", 1, 10);
    let (status, _) = respond(delete_record(&mut records, &provider, ID1), STATUS_NO_CONTENT);
    assert_eq!(status, 204);
    let (status, body) = respond(delete_record(&mut records, &provider, ID1), STATUS_NO_CONTENT);
    assert_eq!(status, 404);
    assert!(!body.success);
    assert!(body.error.is_some());
    assert!(body.error.unwrap().contains("not found"));
}

#[test]
fn delete_that_cannot_be_saved_is_undone() {
    let provider = Memory::new();
    let mut records = DnsRecords::new();
    add(&mut records, &provider, ID1, "test1.example.com", 1, 10);
    add(&mut records, &provider, ID2, "test2.example.com", 2, 20);
    let before = records.values();
    provider.fail.set(true);
    match delete_record(&mut records, &provider, ID1) {
        Err(RecordError::IoError(m)) => assert_eq!(m, "read-only"),
        other => panic!("unexpected {:?}", other),
    }
    assert_eq!(records.values(), before);
    assert!(get_record(&records, ID1).is_ok());
}

#[test]
fn create_that_cannot_be_saved_is_undone() {
    let provider = Memory::new();
    let mut records = DnsRecords::new();
    add(&mut records, &provider, ID1, "test1.example.com", 1, 10);
    provider.fail.set(true);
    let result = create_record_with(
        &mut records,
        &provider,
        ID2.to_string(),
        Timestamp::new(5, 0),
        "test2.example.com".to_string(),
        Some(Ipv4Addr::new(1, 1, 1, 1)),
        300,
        "A".to_string(),
        "IN".to_string(),
        None,
    );
    assert_eq!(result.unwrap_err().to_status_code(), 500);
    assert_eq!(records.len(), 1);
    assert!(!records.contains_id(ID2));
}

#[test]
fn create_with_an_identifier_that_is_taken_is_a_duplicate() {
    let provider = Memory::new();
    let mut records = DnsRecords::new();
    add(&mut records, &provider, ID1, "test1.example.com", 1, 10);
    let result = create_record_with(
        &mut records,
        &provider,
        ID1.to_string(),
        Timestamp::new(5, 0),
        "test2.example.com".to_string(),
        Some(Ipv4Addr::new(1, 1, 1, 1)),
        300,
        "A".to_string(),
        "IN".to_string(),
        None,
    );
    assert_eq!(result.unwrap_err().to_status_code(), 409);
    assert_eq!(get_record(&records, ID1).unwrap().name, "test1.example.com");
}
