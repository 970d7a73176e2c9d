use rind::addr::Ipv4Addr;
use rind::clock::Timestamp;
use rind::datastore::{line_of, load_records_at, offer_record, parse_record_line};
use rind::ident::is_stored_id;
use rind::stage::{settle, stage_create, stage_delete, stage_update, stage_upsert, Undo};
use rind::update::{
    create_record_with, get_record, load_records, load_records_from_file, save_records_to_file,
    update_record_legacy, update_record_legacy_at, DatastoreProvider, DnsRecord, DnsRecords,
    RecordError, UpdateRecordRequest,
};
use std::cell::{Cell, RefCell};

struct Memory {
    saved: RefCell<Option<String>>,
    fail: Cell<bool>,
}

impl Memory {
    fn new() -> Memory {
        Memory { saved: RefCell::new(None), fail: Cell::new(false) }
    }
}

impl DatastoreProvider for Memory {
    fn initialize(&self) -> Result<(), String> {
        Ok(())
    }
    fn health_check(&self) -> Result<bool, String> {
        Ok(true)
    }
    fn load_all_records(&self) -> Result<DnsRecords, String> {
        Ok(load_records(self.saved.borrow().as_deref()))
    }
    fn save_all_records(&self, records: &DnsRecords) -> Result<(), String> {
        if self.fail.get() {
            return Err("no space".to_string());
        }
        *self.saved.borrow_mut() = Some(save_records_to_file(records));
        Ok(())
    }
}

const ID1: &str = "550e8400-e29b-41d4-a716-446655440000";
const ID2: &str = "6ba7b810-9dad-11d1-80b4-00c04fd430c8";

#[test]
fn test_load_records_from_file_valid() {
    let records = load_records_from_file("test.com:1.2.3.4:60:A:IN\n");
    // Records are indexed by UUID, so we need to find by name
    let all = records.values();
    let rec = all.iter().find(|r| r.name == "test.com").unwrap();
    assert_eq!(rec.ip, Some(Ipv4Addr::new(1, 2, 3, 4)));
    assert_eq!(rec.ttl, 60);
    assert_eq!(rec.record_type, "A");
    assert_eq!(rec.class, "IN");
}

#[test]
fn test_save_and_load_records_to_file() {
    let mut records = DnsRecords::new();
    let record = DnsRecord::new(
        "foo.com".to_string(),
        Some(Ipv4Addr::new(5, 6, 7, 8)),
        120,
        "A".to_string(),
        "IN".to_string(),
        None,
    );
    assert!(offer_record(&mut records, record));
    let content = save_records_to_file(&records);
    let loaded = load_records_from_file(&content);
    let all = loaded.values();
    let rec = all.iter().find(|r| r.name == "foo.com").unwrap();
    assert_eq!(rec.ip, Some(Ipv4Addr::new(5, 6, 7, 8)));
    assert_eq!(rec.ttl, 120);
}

#[test]
fn test_load_records_from_file_invalid() {
    let result = load_records_from_file("invalid_line_without_colons\n");
    assert_eq!(result.len(), 0);
    assert!(result.is_empty());
}

#[test]
fn test_update_record() {
    let provider = Memory::new();
    let mut records = DnsRecords::new();
    let new_record = DnsRecord::new(
        "bar.com".to_string(),
        Some(Ipv4Addr::new(9, 9, 9, 9)),
        99,
        "A".to_string(),
        "IN".to_string(),
        None,
    );
    update_record_legacy(&mut records, &provider, new_record.clone()).unwrap();
    let saved = provider.saved.borrow().clone().unwrap();
    let loaded = load_records_from_file(&saved);
    let all = loaded.values();
    let rec = all.iter().find(|r| r.name == "bar.com").unwrap();
    assert_eq!(rec.ip, Some(Ipv4Addr::new(9, 9, 9, 9)));
    assert_eq!(rec.ttl, 99);
}

fn sample(id: &str, name: &str, at: i64) -> DnsRecord {
    DnsRecord::new_at(
        id.to_string(),
        Timestamp::new(at, 0),
        name.to_string(),
        Some(Ipv4Addr::new(93, 184, 216, 34)),
        300,
        "A".to_string(),
        "IN".to_string(),
        None,
    )
}

#[test]
fn saved_text_is_exact() {
    let mut records = DnsRecords::new();
    assert!(offer_record(&mut records, sample(ID1, "example.com", 2)));
    let mut cname = sample(ID2, "www.example.com", 1);
    cname.ip = None;
    cname.record_type = "CNAME".to_string();
    cname.value = Some("example.com".to_string());
    assert!(offer_record(&mut records, cname));
    let expected = "\
# DNS Records File - Format: id:name:ip:ttl:type:class:value
# id: UUID identifier for the record
# name: domain name
# ip: IP address (for A records) or empty for other types
# ttl: time to live in seconds
# type: record type (A, CNAME, TXT, etc.)
# class: record class (usually IN)
# value: additional value for CNAME, TXT records (optional)

6ba7b810-9dad-11d1-80b4-00c04fd430c8:www.example.com::300:CNAME:IN:example.com
550e8400-e29b-41d4-a716-446655440000:example.com:93.184.216.34:300:A:IN
";
    assert_eq!(save_records_to_file(&records), expected);
}

#[test]
fn line_of_a_record_is_exact() {
    assert_eq!(
        line_of(&sample(ID1, "example.com", 2)),
        "550e8400-e29b-41d4-a716-446655440000:example.com:93.184.216.34:300:A:IN"
    );
    let mut txt = sample(ID1, "example.com", 2);
    txt.ip = None;
    txt.ttl = 0;
    txt.record_type = "TXT".to_string();
    txt.value = Some(String::new());
    assert_eq!(line_of(&txt), "550e8400-e29b-41d4-a716-446655440000:example.com::0:TXT:IN:");
}

#[test]
fn what_is_saved_loads_back() {
    let mut records = DnsRecords::new();
    assert!(offer_record(&mut records, sample(ID1, "example.com", 2)));
    let mut cname = sample(ID2, "www.example.com", 1);
    cname.ip = None;
    cname.record_type = "CNAME".to_string();
    cname.value = Some("example.com".to_string());
    assert!(offer_record(&mut records, cname));
    let now = Timestamp::new(5000, 1);
    let loaded = load_records_at(&save_records_to_file(&records), now);
    assert_eq!(loaded.len(), 2);
    for kept in records.values() {
        let found = loaded.get(&kept.id).unwrap();
        assert!(found.has_same_content(&kept));
        assert_eq!(found.created_at, now);
        assert_eq!(found.updated_at, now);
    }
}

#[test]
fn value_with_a_colon_does_not_load_back_whole() {
    let mut records = DnsRecords::new();
    let mut txt = sample(ID1, "example.com", 2);
    txt.ip = None;
    txt.record_type = "TXT".to_string();
    txt.value = Some("v=spf1 include:_spf.google.com ~all".to_string());
    assert!(offer_record(&mut records, txt));
    let loaded = load_records_at(&save_records_to_file(&records), Timestamp::new(1, 0));
    assert_eq!(loaded.get(ID1).unwrap().value, Some("v=spf1 include".to_string()));
}

#[test]
fn legacy_line_gets_a_fresh_identifier() {
    let records = load_records_from_file("foo.com:5.6.7.8:120:A:IN");
    let all = records.values();
    assert_eq!(all.len(), 1);
    assert_eq!(all[0].name, "foo.com");
    assert_eq!(all[0].ip, Some(Ipv4Addr::new(5, 6, 7, 8)));
    assert_eq!(all[0].ttl, 120);
    assert_eq!(all[0].record_type, "A");
    assert_eq!(all[0].class, "IN");
    assert_eq!(all[0].value, None);
    assert!(is_stored_id(&all[0].id));
    assert_eq!(all[0].created_at, all[0].updated_at);
}

#[test]
fn parse_record_line_reads_each_form() {
    let now = Timestamp::new(9, 9);
    let canonical = parse_record_line(
        "  550e8400-e29b-41d4-a716-446655440000:example.com:93.184.216.34:300:A:IN \r",
        "fresh".to_string(),
        now,
    )
    .unwrap();
    assert_eq!(canonical, sample(ID1, "example.com", 9).with_times(now));
    let with_value = parse_record_line(
        "550e8400-e29b-41d4-a716-446655440000:www.example.com::300:CNAME:IN:example.com:more",
        "fresh".to_string(),
        now,
    )
    .unwrap();
    assert_eq!(with_value.ip, None);
    assert_eq!(with_value.value, Some("example.com".to_string()));
    let legacy = parse_record_line("foo.com:5.6.7.8:120:A:IN", "fresh".to_string(), now).unwrap();
    assert_eq!(legacy.id, "fresh");
    assert_eq!(legacy.name, "foo.com");
    assert_eq!(legacy.ttl, 120);
    let cname = parse_record_line("Cwww:target.example:77:IN", "fresh".to_string(), now).unwrap();
    assert_eq!(cname.id, "fresh");
    assert_eq!(cname.name, "Cwww");
    assert_eq!(cname.record_type, "CNAME");
    assert_eq!(cname.class, "IN");
    assert_eq!(cname.ttl, 77);
    assert_eq!(cname.value, Some("target.example".to_string()));
    assert_eq!(cname.ip, None);
    for line in [
        "",
        "   ",
        "# comment",
        "  # comment",
        "a:b:c",
        "www:target.example:77:IN",
        "foo.com:5.6.7.8:soon:A:IN",
        "550e8400-e29b-41d4-a716-446655440000:example.com:93.184.216.34:x:A:IN",
    ] {
        assert!(parse_record_line(line, "fresh".to_string(), now).is_none(), "{:?}", line);
    }
    // an address that does not read as one is no address
    let odd = parse_record_line("foo.com:5.6.7:120:A:IN", "fresh".to_string(), now).unwrap();
    assert_eq!(odd.ip, None);
}

trait WithTimes {
    fn with_times(self, now: Timestamp) -> Self;
}

impl WithTimes for DnsRecord {
    fn with_times(mut self, now: Timestamp) -> DnsRecord {
        self.created_at = now;
        self.updated_at = now;
        self
    }
}

#[test]
fn load_passes_over_what_cannot_be_taken() {
    let text = "\
# header
550e8400-e29b-41d4-a716-446655440000:example.com:93.184.216.34:300:A:IN

not a record
6ba7b810-9dad-11d1-80b4-00c04fd430c8:example.com:1.1.1.1:300:A:IN
6ba7b811-9dad-11d1-80b4-00c04fd430c8:other.example:1.1.1.1:999999999:A:IN
6ba7b812-9dad-11d1-80b4-00c04fd430c8:noaddress.example::300:A:IN
6ba7b813-9dad-11d1-80b4-00c04fd430c8:third.example:1.1.1.1:300:A:IN
550e8400-e29b-41d4-a716-446655440000:example.com:93.184.216.35:301:A:IN
";
    let loaded = load_records_at(text, Timestamp::new(1, 0));
    assert_eq!(loaded.len(), 2);
    // the later line with the same identifier took the place of the earlier
    let first = loaded.get(ID1).unwrap();
    assert_eq!(first.ttl, 301);
    assert_eq!(first.ip, Some(Ipv4Addr::new(93, 184, 216, 35)));
    assert!(loaded.contains_id("6ba7b813-9dad-11d1-80b4-00c04fd430c8"));
    assert!(!loaded.contains_id(ID2));
}

#[test]
fn load_of_nothing_is_empty() {
    assert!(load_records(None).is_empty());
    assert!(load_records(Some("")).is_empty());
    assert!(load_records_from_file("\n\n\n").is_empty());
}

#[test]
fn upsert_creates_then_replaces_by_identifier() {
    let provider = Memory::new();
    let mut records = DnsRecords::new();
    let stored =
        update_record_legacy_at(&mut records, &provider, sample(ID1, "example.com", 10), Timestamp::new(20, 0))
            .unwrap();
    assert_eq!(stored.created_at, Timestamp::new(10, 0));
    assert_eq!(stored.updated_at, Timestamp::new(20, 0));
    assert_eq!(records.len(), 1);
    let mut changed = sample(ID1, "example.org", 30);
    changed.ttl = 1;
    let stored =
        update_record_legacy_at(&mut records, &provider, changed, Timestamp::new(40, 0)).unwrap();
    assert_eq!(records.len(), 1);
    assert_eq!(get_record(&records, ID1).unwrap(), stored);
    assert_eq!(stored.name, "example.org");
    assert_eq!(stored.created_at, Timestamp::new(30, 0));
    assert_eq!(stored.updated_at, Timestamp::new(40, 0));
    assert!(provider.saved.borrow().as_ref().unwrap().contains("example.org"));
}

#[test]
fn upsert_refuses_invalid_and_taken_and_undoes_unsaved() {
    let provider = Memory::new();
    let mut records = DnsRecords::new();
    create_record_with(
        &mut records,
        &provider,
        ID1.to_string(),
        Timestamp::new(1, 0),
        "example.com".to_string(),
        Some(Ipv4Addr::new(1, 2, 3, 4)),
        300,
        "A".to_string(),
        "IN".to_string(),
        None,
    )
    .unwrap();
    let before = records.values();
    let mut invalid = sample(ID2, "example.net", 5);
    invalid.class = "XX".to_string();
    match update_record_legacy_at(&mut records, &provider, invalid, Timestamp::new(9, 0)) {
        Err(RecordError::ValidationError(_)) => {}
        other => panic!("unexpected {:?}", other),
    }
    match update_record_legacy_at(&mut records, &provider, sample(ID2, "example.com", 5), Timestamp::new(9, 0)) {
        Err(RecordError::DuplicateRecord(_)) => {}
        other => panic!("unexpected {:?}", other),
    }
    provider.fail.set(true);
    match update_record_legacy_at(&mut records, &provider, sample(ID1, "example.net", 5), Timestamp::new(9, 0)) {
        Err(RecordError::IoError(m)) => assert_eq!(m, "no space"),
        other => panic!("unexpected {:?}", other),
    }
    match update_record_legacy_at(&mut records, &provider, sample(ID2, "example.net", 5), Timestamp::new(9, 0)) {
        Err(RecordError::IoError(_)) => {}
        other => panic!("unexpected {:?}", other),
    }
    assert_eq!(records.values(), before);
}

#[test]
fn provider_loads_what_it_saved() {
    let provider = Memory::new();
    let mut records = DnsRecords::new();
    update_record_legacy_at(&mut records, &provider, sample(ID1, "example.com", 10), Timestamp::new(20, 0))
        .unwrap();
    let loaded = provider.load_all_records().unwrap();
    assert_eq!(loaded.len(), 1);
    assert!(loaded.get(ID1).unwrap().has_same_content(&sample(ID1, "example.com", 10)));
    assert!(provider.initialize().is_ok());
    assert_eq!(provider.health_check(), Ok(true));
}

#[test]
fn staged_change_is_kept_or_taken_back_by_what_the_write_gave() {
    let mut records = DnsRecords::new();
    // create
    let (record, undo) = stage_create(
        &mut records,
        ID1.to_string(),
        Timestamp::new(10, 0),
        "example.com".to_string(),
        Some(Ipv4Addr::new(1, 2, 3, 4)),
        300,
        "A".to_string(),
        "IN".to_string(),
        None,
    )
    .unwrap();
    assert!(matches!(undo, Undo::Remove(0)));
    assert_eq!(records.len(), 1);
    match settle(&mut records, undo, Err("full".to_string()), record.clone()) {
        Err(RecordError::IoError(m)) => assert_eq!(m, "full"),
        other => panic!("unexpected {:?}", other),
    }
    assert!(records.is_empty());
    let (record, undo) = stage_create(
        &mut records,
        ID1.to_string(),
        Timestamp::new(10, 0),
        "example.com".to_string(),
        Some(Ipv4Addr::new(1, 2, 3, 4)),
        300,
        "A".to_string(),
        "IN".to_string(),
        None,
    )
    .unwrap();
    assert_eq!(settle(&mut records, undo, Ok(()), record.clone()).unwrap(), record);
    assert_eq!(records.values(), vec![record.clone()]);
    // update
    let patch = UpdateRecordRequest {
        name: None,
        ip: None,
        ttl: Some(1),
        record_type: None,
        class: None,
        value: None,
    };
    let (updated, undo) = stage_update(&mut records, ID1, patch, Timestamp::new(20, 0)).unwrap();
    assert_eq!(records.get(ID1).unwrap().ttl, 1);
    assert_eq!(updated.updated_at, Timestamp::new(20, 0));
    assert!(settle(&mut records, undo, Err("x".to_string()), updated).is_err());
    assert_eq!(records.values(), vec![record.clone()]);
    // upsert that replaces, with another creation time, then is taken back
    let (stored, undo) =
        stage_upsert(&mut records, sample(ID1, "example.net", 5), Timestamp::new(30, 0)).unwrap();
    assert_eq!(stored.name, "example.net");
    assert!(settle(&mut records, undo, Err("x".to_string()), stored).is_err());
    assert_eq!(records.values(), vec![record.clone()]);
    // upsert that creates, then is taken back
    let (stored, undo) =
        stage_upsert(&mut records, sample(ID2, "example.net", 5), Timestamp::new(30, 0)).unwrap();
    assert_eq!(records.len(), 2);
    assert_eq!(records.values()[0].id, ID2);
    assert!(settle(&mut records, undo, Err("x".to_string()), stored).is_err());
    assert_eq!(records.values(), vec![record.clone()]);
    // delete
    let undo = stage_delete(&mut records, ID1).unwrap();
    assert!(records.is_empty());
    assert!(settle(&mut records, undo, Err("x".to_string()), ()).is_err());
    assert_eq!(records.values(), vec![record.clone()]);
    let undo = stage_delete(&mut records, ID1).unwrap();
    assert!(settle(&mut records, undo, Ok(()), ()).is_ok());
    assert!(records.is_empty());
    assert!(matches!(stage_delete(&mut records, ID1), Err(RecordError::NotFound(_))));
    assert!(records.is_well_formed());
}
