//! The operations of the record store: create, read, list, update, delete
//! and the create-or-replace of the older interface.
//!
//! A mutation checks, changes the store, and hands the changed store to the
//! datastore provider. Where the provider fails, the change is undone: an
//! operation that returns an error has left the store as it was.

use crate::addr::{parse_ipv4_spec, Ipv4Addr};
use crate::clock::{utc_now_rfc3339, Timestamp};
use crate::ident::is_hyphenated_uuid;
use crate::record::{
    copy_text, prefixed, text_of, touched, validate_spec, RecordErrorView, ValidationErrorView,
};
use crate::stage::{settle, stage_create, stage_delete, stage_update, stage_upsert};
use crate::store::{has_id, index_of_id, inserted, key_taken, lemma_index_of_id, lookup, put};
use vstd::prelude::*;
use vstd::string::*;

pub use crate::datastore::{
    ensure_datastore_initialized, initialize_empty_datastore, load_records, load_records_from_file,
    save_records_to_file, validate_datastore_format,
};
pub use crate::ident::generate_record_id;
pub use crate::record::{DnsRecord, RecordError, RecordView, ValidationError};
pub use crate::store::DnsRecords;

verus! {

/// Where the records are kept between runs.
///
/// Nothing is asked of an implementation: the store operations are verified
/// for every behaviour of it.
pub trait DatastoreProvider {
    /// Makes the datastore ready for use.
    fn initialize(&self) -> Result<(), String>;

    /// Whether the datastore is there and in the current format.
    fn health_check(&self) -> Result<bool, String>;

    /// Reads all records.
    fn load_all_records(&self) -> Result<DnsRecords, String>;

    /// Writes all records, in place of what was kept before.
    fn save_all_records(&self, records: &DnsRecords) -> Result<(), String>;
}

/// A file-backed datastore, named by the path of its file.
#[derive(Debug, Clone)]
pub struct FileDatastoreProvider {
    file_path: String,
}

impl FileDatastoreProvider {
    /// The path of the file.
    pub closed spec fn spec_file_path(&self) -> Seq<char> {
        self.file_path@
    }

    /// The datastore in the file at `file_path`.
    pub fn new(file_path: String) -> (provider: FileDatastoreProvider)
        ensures
            provider.spec_file_path() == file_path@,
    {
        FileDatastoreProvider { file_path }
    }

    /// The path of the file.
    pub fn file_path(&self) -> (path: &str)
        ensures
            path@ == self.spec_file_path(),
    {
        self.file_path.as_str()
    }
}

/// The provider for the datastore in the file at `file_path`.
pub fn create_datastore_provider(file_path: &str) -> (provider: FileDatastoreProvider)
    ensures
        provider.spec_file_path() == file_path@,
{
    FileDatastoreProvider::new(file_path.to_string())
}

// ---------------------------------------------------------------------------
// Requests and responses
// ---------------------------------------------------------------------------

/// The envelope of every response of the control plane.
#[derive(Debug)]
pub struct ApiResponse<T> {
    pub success: bool,
    pub data: Option<T>,
    pub error: Option<String>,
    pub timestamp: String,
}

impl<T> ApiResponse<T> {
    /// A success that carries `data`, stamped with `timestamp`.
    pub fn success_at(data: T, timestamp: String) -> (response: ApiResponse<T>)
        ensures
            response.success,
            response.data == Some(data),
            response.error is None,
            response.timestamp@ == timestamp@,
    {
        ApiResponse { success: true, data: Some(data), error: None, timestamp }
    }

    /// A failure that carries `error_message`, stamped with `timestamp`.
    pub fn error_at(error_message: String, timestamp: String) -> (response: ApiResponse<T>)
        ensures
            !response.success,
            response.data is None,
            response.error is Some,
            response.error->0@ == error_message@,
            response.timestamp@ == timestamp@,
    {
        ApiResponse { success: false, data: None, error: Some(error_message), timestamp }
    }

    /// A success that carries `data`, stamped with the current instant.
    pub fn success(data: T) -> (response: ApiResponse<T>)
        ensures
            response.success,
            response.data == Some(data),
            response.error is None,
    {
        ApiResponse::success_at(data, utc_now_rfc3339())
    }

    /// A failure that carries `error_message`, stamped with the current
    /// instant.
    pub fn error(error_message: String) -> (response: ApiResponse<T>)
        ensures
            !response.success,
            response.data is None,
            response.error is Some,
            response.error->0@ == error_message@,
    {
        ApiResponse::error_at(error_message, utc_now_rfc3339())
    }
}

/// One page of the listing.
#[derive(Debug)]
pub struct RecordListResponse {
    pub records: Vec<DnsRecord>,
    /// The number of records in the store.
    pub total: usize,
    pub page: usize,
    pub per_page: usize,
}

/// What is asked for when a record is created. Absent fields take their
/// defaults: a TTL of 300, type `A`, class `IN`.
#[derive(Debug)]
pub struct CreateRecordRequest {
    pub name: String,
    pub ip: Option<String>,
    pub ttl: Option<u32>,
    pub record_type: Option<String>,
    pub class: Option<String>,
    pub value: Option<String>,
}

/// What is asked for when a record is updated. Absent fields keep what the
/// record has; an empty `ip` or `value` clears the field.
#[derive(Debug)]
pub struct UpdateRecordRequest {
    pub name: Option<String>,
    pub ip: Option<String>,
    pub ttl: Option<u32>,
    pub record_type: Option<String>,
    pub class: Option<String>,
    pub value: Option<String>,
}

/// What an `UpdateRecordRequest` holds, as mathematical values.
pub struct PatchView {
    pub name: Option<Seq<char>>,
    pub ip: Option<Seq<char>>,
    pub ttl: Option<u32>,
    pub record_type: Option<Seq<char>>,
    pub class: Option<Seq<char>>,
    pub value: Option<Seq<char>>,
}

impl View for UpdateRecordRequest {
    type V = PatchView;

    open spec fn view(&self) -> PatchView {
        PatchView {
            name: text_of(self.name),
            ip: text_of(self.ip),
            ttl: self.ttl,
            record_type: text_of(self.record_type),
            class: text_of(self.class),
            value: text_of(self.value),
        }
    }
}

/// The default TTL of a new record: five minutes.
pub const DEFAULT_TTL: u32 = 300;

/// The greatest number of records on a page.
pub const MAX_PER_PAGE: usize = 1000;

// ---------------------------------------------------------------------------
// What the operations decide
// ---------------------------------------------------------------------------

/// The detail of the error for an identifier that is not in the store.
pub open spec fn not_found_text(id: Seq<char>) -> Seq<char> {
    "Record with ID '"@ + id + "' not found"@
}

/// The detail of the error for a name and type that are taken.
pub open spec fn duplicate_text(name: Seq<char>, record_type: Seq<char>) -> Seq<char> {
    "Record with name '"@ + name + "' and type '"@ + record_type + "' already exists"@
}

/// The address that an optional text asks for: none for no text or an empty
/// one, else the address that the text writes; an error for any other text.
pub open spec fn requested_ip(text: Option<Seq<char>>, current: Option<Ipv4Addr>) -> Result<
    Option<Ipv4Addr>,
    ValidationErrorView,
> {
    match text {
        None => Ok(current),
        Some(t) => if t.len() == 0 {
            Ok(None)
        } else {
            match parse_ipv4_spec(t) {
                Some(ip) => Ok(Some(ip)),
                None => Err(ValidationErrorView::InvalidIpAddress(t)),
            }
        },
    }
}

/// Why `r` cannot be created in `s`, or `Ok`: it is not valid, or its
/// identifier or its name and type are taken.
pub open spec fn create_check(s: Seq<RecordView>, r: RecordView) -> Result<(), RecordErrorView> {
    match validate_spec(r) {
        Err(e) => Err(RecordErrorView::ValidationError(e)),
        Ok(_) => if has_id(s, r.id) || key_taken(s, r) {
            Err(RecordErrorView::DuplicateRecord(duplicate_text(r.name, r.record_type)))
        } else {
            Ok(())
        },
    }
}

/// The record with the fields of the patch in place of its own.
pub open spec fn patched(r: RecordView, p: PatchView) -> Result<RecordView, ValidationErrorView> {
    match requested_ip(p.ip, r.ip) {
        Err(e) => Err(e),
        Ok(ip) => Ok(
            RecordView {
                name: match p.name {
                    Some(n) => n,
                    None => r.name,
                },
                ip,
                ttl: match p.ttl {
                    Some(t) => t,
                    None => r.ttl,
                },
                record_type: match p.record_type {
                    Some(t) => t,
                    None => r.record_type,
                },
                class: match p.class {
                    Some(c) => c,
                    None => r.class,
                },
                value: match p.value {
                    Some(v) => if v.len() == 0 {
                        None
                    } else {
                        Some(v)
                    },
                    None => r.value,
                },
                ..r
            },
        ),
    }
}

/// The record that an update at `now` puts in place of the record with the
/// identifier, or why there is no update: the record is not there, the
/// patch or the patched record is not valid, or the new name and type are
/// taken.
pub open spec fn update_check(s: Seq<RecordView>, id: Seq<char>, p: PatchView, now: Timestamp) -> Result<
    RecordView,
    RecordErrorView,
> {
    if !has_id(s, id) {
        Err(RecordErrorView::NotFound(not_found_text(id)))
    } else {
        match patched(s[index_of_id(s, id)], p) {
            Err(e) => Err(RecordErrorView::ValidationError(e)),
            Ok(r) => match validate_spec(r) {
                Err(e) => Err(RecordErrorView::ValidationError(e)),
                Ok(_) => if key_taken(s, r) {
                    Err(RecordErrorView::DuplicateRecord(duplicate_text(r.name, r.record_type)))
                } else {
                    Ok(RecordView { updated_at: touched(r, now), ..r })
                },
            },
        }
    }
}

/// The record that a create-or-replace at `now` stores, or why it stores
/// none: the record is not valid, or its name and type are taken by a
/// record with another identifier.
pub open spec fn upsert_check(s: Seq<RecordView>, r: RecordView, now: Timestamp) -> Result<
    RecordView,
    RecordErrorView,
> {
    match validate_spec(r) {
        Err(e) => Err(RecordErrorView::ValidationError(e)),
        Ok(_) => if key_taken(s, r) {
            Err(RecordErrorView::DuplicateRecord(duplicate_text(r.name, r.record_type)))
        } else {
            Ok(RecordView { updated_at: touched(r, now), ..r })
        },
    }
}

/// The record that is made of the fields, with both timestamps at `now`.
pub open spec fn draft(
    id: Seq<char>,
    now: Timestamp,
    name: Seq<char>,
    ip: Option<Ipv4Addr>,
    ttl: u32,
    record_type: Seq<char>,
    class: Seq<char>,
    value: Option<Seq<char>>,
) -> RecordView {
    RecordView { id, name, ip, ttl, record_type, class, value, created_at: now, updated_at: now }
}

/// The first instant of the Unix epoch.
pub open spec fn epoch() -> Timestamp {
    Timestamp { secs: 0, nanos: 0 }
}

/// A record of the store answers for the name and the record type.
pub open spec fn name_taken(s: Seq<RecordView>, name: Seq<char>, record_type: Seq<char>) -> bool {
    exists|i: int|
        0 <= i < s.len() && (#[trigger] s[i]).name == name && s[i].record_type == record_type
}

/// Why no record with these fields can be created, whatever identifier it
/// gets and whenever: the fields are not valid, or name and type are taken.
pub open spec fn create_error(
    s: Seq<RecordView>,
    name: Seq<char>,
    ip: Option<Ipv4Addr>,
    ttl: u32,
    record_type: Seq<char>,
    class: Seq<char>,
    value: Option<Seq<char>>,
) -> Option<RecordErrorView> {
    match validate_spec(draft(Seq::empty(), epoch(), name, ip, ttl, record_type, class, value)) {
        Err(e) => Some(RecordErrorView::ValidationError(e)),
        Ok(_) => if name_taken(s, name, record_type) {
            Some(RecordErrorView::DuplicateRecord(duplicate_text(name, record_type)))
        } else {
            None
        },
    }
}

/// Why there is no update, whenever it is asked for.
pub open spec fn update_error(s: Seq<RecordView>, id: Seq<char>, p: PatchView) -> Option<
    RecordErrorView,
> {
    match update_check(s, id, p, epoch()) {
        Err(e) => Some(e),
        Ok(_) => None,
    }
}

/// Why the record is not stored, whenever that is asked for.
pub open spec fn upsert_error(s: Seq<RecordView>, r: RecordView) -> Option<RecordErrorView> {
    match upsert_check(s, r, epoch()) {
        Err(e) => Some(e),
        Ok(_) => None,
    }
}

/// A name and type that are taken stand in the way of every new record
/// with them, whatever its identifier.
pub proof fn lemma_name_taken(s: Seq<RecordView>, r: RecordView)
    requires
        name_taken(s, r.name, r.record_type),
    ensures
        has_id(s, r.id) || key_taken(s, r),
{
    let i = choose|i: int|
        0 <= i < s.len() && (#[trigger] s[i]).name == r.name && s[i].record_type == r.record_type;
    lemma_index_of_id(s, r.id);
    if s[i].id != r.id {
        assert(crate::store::same_key(s[i], r));
    }
}

/// The records of page `page` where a page holds `per_page` records.
pub open spec fn page_of(s: Seq<RecordView>, page: int, per_page: int) -> Seq<RecordView> {
    let start = if (page - 1) * per_page < s.len() {
        (page - 1) * per_page
    } else {
        s.len() as int
    };
    let end = if start + per_page < s.len() {
        start + per_page
    } else {
        s.len() as int
    };
    s.subrange(start, end)
}

/// Why there is no page, or `Ok`: pages count from one and hold between one
/// and a thousand records.
pub open spec fn page_check(page: int, per_page: int) -> Result<(), RecordErrorView> {
    if page == 0 {
        Err(
            RecordErrorView::ValidationError(
                ValidationErrorView::InvalidArgument("Page number must be greater than 0"@),
            ),
        )
    } else if per_page == 0 || per_page > MAX_PER_PAGE {
        Err(
            RecordErrorView::ValidationError(
                ValidationErrorView::InvalidArgument("Per page must be between 1 and 1000"@),
            ),
        )
    } else {
        Ok(())
    }
}

/// The error for an identifier that is not in the store.
pub(crate) fn not_found(id: &str) -> (e: RecordError)
    ensures
        e@ == RecordErrorView::NotFound(not_found_text(id@)),
{
    let mut text = prefixed("Record with ID '", id);
    text.append("' not found");
    RecordError::NotFound(text)
}

/// The error for a name and type that are taken.
pub(crate) fn duplicate(name: &str, record_type: &str) -> (e: RecordError)
    ensures
        e@ == RecordErrorView::DuplicateRecord(duplicate_text(name@, record_type@)),
{
    let mut text = prefixed("Record with name '", name);
    text.append("' and type '");
    text.append(record_type);
    text.append("' already exists");
    RecordError::DuplicateRecord(text)
}

// ---------------------------------------------------------------------------
// The operations
// ---------------------------------------------------------------------------

/// Creates the record with the given identifier and creation time.
///
/// The record is checked (`create_check`), put at its place and handed to
/// the provider with the rest of the store. On success the store holds the
/// record; on any error the store is as it was. Where `create_check` passes, the
/// only error left is the provider's, an `IoError`.
pub fn create_record_with<P: DatastoreProvider>(
    records: &mut DnsRecords,
    provider: &P,
    id: String,
    now: Timestamp,
    name: String,
    ip: Option<Ipv4Addr>,
    ttl: u32,
    record_type: String,
    class: String,
    value: Option<String>,
) -> (res: Result<DnsRecord, RecordError>)
    requires
        old(records).wf(),
    ensures
        final(records).wf(),
        match res {
            Ok(record) => {
                &&& record@ == (RecordView {
                    id: id@,
                    name: name@,
                    ip,
                    ttl,
                    record_type: record_type@,
                    class: class@,
                    value: text_of(value),
                    created_at: now,
                    updated_at: now,
                })
                &&& create_check(old(records)@, record@) is Ok
                &&& final(records)@ == inserted(old(records)@, record@)
                &&& lookup(final(records)@, record@.id) == Some(record@)
            },
            Err(e) => {
                &&& final(records)@ == old(records)@
                &&& match create_check(
                    old(records)@,
                    RecordView {
                        id: id@,
                        name: name@,
                        ip,
                        ttl,
                        record_type: record_type@,
                        class: class@,
                        value: text_of(value),
                        created_at: now,
                        updated_at: now,
                    },
                ) {
                    Err(expected) => e@ == expected,
                    Ok(_) => e@ is IoError,
                }
            },
        },
{
    let (record, undo) = match stage_create(
        records,
        id,
        now,
        name,
        ip,
        ttl,
        record_type,
        class,
        value,
    ) {
        Ok(staged) => staged,
        Err(e) => {
            return Err(e);
        },
    };
    let saved = provider.save_all_records(records);
    settle(records, undo, saved, record)
}

/// Creates a record with a fresh identifier at the current instant: see
/// `create_record_with`.
pub fn create_record<P: DatastoreProvider>(
    records: &mut DnsRecords,
    provider: &P,
    name: String,
    ip: Option<Ipv4Addr>,
    ttl: u32,
    record_type: String,
    class: String,
    value: Option<String>,
) -> (res: Result<DnsRecord, RecordError>)
    requires
        old(records).wf(),
    ensures
        final(records).wf(),
        match res {
            Ok(record) => {
                &&& is_hyphenated_uuid(record@.id)
                &&& record@.name == name@
                &&& record@.ip == ip
                &&& record@.ttl == ttl
                &&& record@.record_type == record_type@
                &&& record@.class == class@
                &&& record@.value == text_of(value)
                &&& record@.created_at == record@.updated_at
                &&& create_check(old(records)@, record@) is Ok
                &&& create_error(
                    old(records)@,
                    name@,
                    ip,
                    ttl,
                    record_type@,
                    class@,
                    text_of(value),
                ) is None
                &&& final(records)@ == inserted(old(records)@, record@)
                &&& lookup(final(records)@, record@.id) == Some(record@)
            },
            Err(e) => {
                &&& final(records)@ == old(records)@
                &&& match create_error(
                    old(records)@,
                    name@,
                    ip,
                    ttl,
                    record_type@,
                    class@,
                    text_of(value),
                ) {
                    Some(expected) => e@ == expected,
                    None => e@ is IoError || e@ == RecordErrorView::DuplicateRecord(
                        duplicate_text(name@, record_type@),
                    ),
                }
            },
        },
{
    let id = generate_record_id();
    let now = Timestamp::now();
    proof {
        let r = draft(id@, now, name@, ip, ttl, record_type@, class@, text_of(value));
        let plain = draft(Seq::empty(), epoch(), name@, ip, ttl, record_type@, class@, text_of(value));
        assert(validate_spec(r) == validate_spec(plain));
        if name_taken(records@, name@, record_type@) {
            lemma_name_taken(records@, r);
        }
        if key_taken(records@, r) {
            let i = choose|i: int|
                0 <= i < records@.len() && (#[trigger] records@[i]).id != r.id
                    && crate::store::same_key(records@[i], r);
            assert(name_taken(records@, name@, record_type@));
        }
    }
    create_record_with(records, provider, id, now, name, ip, ttl, record_type, class, value)
}

/// The address that an optional text asks for: see `requested_ip`.
pub fn read_requested_ip(text: &Option<String>, current: Option<Ipv4Addr>) -> (res: Result<
    Option<Ipv4Addr>,
    ValidationError,
>)
    ensures
        match res {
            Ok(ip) => requested_ip(text_of(*text), current) == Ok::<
                Option<Ipv4Addr>,
                ValidationErrorView,
            >(ip),
            Err(e) => requested_ip(text_of(*text), current) == Err::<
                Option<Ipv4Addr>,
                ValidationErrorView,
            >(e@),
        },
{
    match text {
        None => Ok(current),
        Some(t) => {
            if t.as_str().is_empty() {
                Ok(None)
            } else {
                match Ipv4Addr::parse(t.as_str()) {
                    Some(ip) => Ok(Some(ip)),
                    None => Err(ValidationError::InvalidIpAddress(t.clone())),
                }
            }
        },
    }
}

/// The text of an optional field, or the default.
fn text_or(field: Option<String>, default: &str) -> (s: String)
    ensures
        s@ == (match text_of(field) {
            Some(t) => t,
            None => default@,
        }),
{
    match field {
        Some(t) => t,
        None => default.to_string(),
    }
}

/// Creates the record that a request asks for.
///
/// An address that does not read as one is an `InvalidIpAddress`; absent
/// fields take their defaults; the rest is `create_record`.
pub fn create_record_from_request<P: DatastoreProvider>(
    records: &mut DnsRecords,
    provider: &P,
    create_request: CreateRecordRequest,
) -> (res: Result<DnsRecord, RecordError>)
    requires
        old(records).wf(),
    ensures
        final(records).wf(),
        match res {
            Ok(record) => {
                &&& requested_ip(text_of(create_request.ip), None) == Ok::<
                    Option<Ipv4Addr>,
                    ValidationErrorView,
                >(record@.ip)
                &&& is_hyphenated_uuid(record@.id)
                &&& record@.name == create_request.name@
                &&& record@.ttl == (match create_request.ttl {
                    Some(t) => t,
                    None => DEFAULT_TTL,
                })
                &&& record@.record_type == (match text_of(create_request.record_type) {
                    Some(t) => t,
                    None => "A"@,
                })
                &&& record@.class == (match text_of(create_request.class) {
                    Some(t) => t,
                    None => "IN"@,
                })
                &&& record@.value == text_of(create_request.value)
                &&& record@.created_at == record@.updated_at
                &&& create_check(old(records)@, record@) is Ok
                &&& final(records)@ == inserted(old(records)@, record@)
                &&& lookup(final(records)@, record@.id) == Some(record@)
            },
            Err(e) => {
                &&& final(records)@ == old(records)@
                &&& match requested_ip(text_of(create_request.ip), None) {
                    Err(invalid) => e@ == RecordErrorView::ValidationError(invalid),
                    Ok(ip) => match create_error(
                        old(records)@,
                        create_request.name@,
                        ip,
                        match create_request.ttl {
                            Some(t) => t,
                            None => DEFAULT_TTL,
                        },
                        match text_of(create_request.record_type) {
                            Some(t) => t,
                            None => "A"@,
                        },
                        match text_of(create_request.class) {
                            Some(t) => t,
                            None => "IN"@,
                        },
                        text_of(create_request.value),
                    ) {
                        Some(expected) => e@ == expected,
                        None => e@ is IoError || e@ is DuplicateRecord,
                    },
                }
            },
        },
{
    let ip = match read_requested_ip(&create_request.ip, None) {
        Ok(ip) => ip,
        Err(e) => {
            return Err(RecordError::ValidationError(e));
        },
    };
    let ttl = match create_request.ttl {
        Some(t) => t,
        None => DEFAULT_TTL,
    };
    let record_type = text_or(create_request.record_type, "A");
    let class = text_or(create_request.class, "IN");
    create_record(
        records,
        provider,
        create_request.name,
        ip,
        ttl,
        record_type,
        class,
        create_request.value,
    )
}

/// The record with the identifier, or `NotFound`.
pub fn get_record(records: &DnsRecords, id: &str) -> (res: Result<DnsRecord, RecordError>)
    ensures
        match res {
            Ok(record) => lookup(records@, id@) == Some(record@),
            Err(e) => lookup(records@, id@) is None && e@ == RecordErrorView::NotFound(
                not_found_text(id@),
            ),
        },
{
    match records.get(id) {
        Some(record) => Ok(record.clone()),
        None => Err(not_found(id)),
    }
}

/// One page of the listing, which is ordered by creation time and then by
/// identifier. Pages count from one; a page holds between one and a
/// thousand records; a page past the end is empty.
pub fn list_records(records: &DnsRecords, page: usize, per_page: usize) -> (res: Result<
    RecordListResponse,
    RecordError,
>)
    ensures
        match res {
            Ok(listing) => {
                &&& page_check(page as int, per_page as int) is Ok
                &&& listing.total == records@.len()
                &&& listing.page == page
                &&& listing.per_page == per_page
                &&& listing.records@.len() == page_of(records@, page as int, per_page as int).len()
                &&& forall|i: int|
                    0 <= i < listing.records@.len() ==> (#[trigger] listing.records@[i])@
                        == page_of(records@, page as int, per_page as int)[i]
            },
            Err(e) => page_check(page as int, per_page as int) == Err::<(), RecordErrorView>(e@),
        },
{
    if page == 0 {
        return Err(
            RecordError::ValidationError(
                ValidationError::InvalidArgument("Page number must be greater than 0".to_string()),
            ),
        );
    }
    if per_page == 0 || per_page > MAX_PER_PAGE {
        return Err(
            RecordError::ValidationError(
                ValidationError::InvalidArgument("Per page must be between 1 and 1000".to_string()),
            ),
        );
    }
    let total = records.len();
    let start: usize = if page - 1 > total / per_page {
        proof {
            assert((page - 1) * per_page >= total) by (nonlinear_arith)
                requires
                    page - 1 > total / per_page,
                    per_page > 0,
                    total >= 0,
            ;
        }
        total
    } else {
        proof {
            assert((page - 1) * per_page <= total) by (nonlinear_arith)
                requires
                    page - 1 <= total / per_page,
                    per_page > 0,
                    page >= 1,
                    total >= 0,
            ;
        }
        let first = (page - 1) * per_page;
        if first < total {
            first
        } else {
            total
        }
    };
    let end: usize = if per_page < total - start {
        start + per_page
    } else {
        total
    };
    let ghost wanted = page_of(records@, page as int, per_page as int);
    assert(wanted == records@.subrange(start as int, end as int));
    let mut found: Vec<DnsRecord> = Vec::new();
    let mut i: usize = start;
    while i < end
        invariant
            start <= i <= end <= records@.len(),
            found@.len() == i - start,
            forall|k: int| 0 <= k < found@.len() ==> (#[trigger] found@[k])@ == records@[start + k],
        decreases end - i,
    {
        found.push(records.record_at(i).clone());
        i += 1;
    }
    Ok(RecordListResponse { records: found, total, page, per_page })
}

/// The record as the patch asks for it: see `patched`.
pub fn apply_patch(record: &DnsRecord, patch: UpdateRecordRequest) -> (res: Result<
    DnsRecord,
    ValidationError,
>)
    ensures
        match res {
            Ok(r) => patched(record@, patch@) == Ok::<RecordView, ValidationErrorView>(r@),
            Err(e) => patched(record@, patch@) == Err::<RecordView, ValidationErrorView>(e@),
        },
{
    let ip = match read_requested_ip(&patch.ip, record.ip) {
        Ok(ip) => ip,
        Err(e) => {
            return Err(e);
        },
    };
    let name = match patch.name {
        Some(n) => n,
        None => record.name.clone(),
    };
    let ttl = match patch.ttl {
        Some(t) => t,
        None => record.ttl,
    };
    let record_type = match patch.record_type {
        Some(t) => t,
        None => record.record_type.clone(),
    };
    let class = match patch.class {
        Some(c) => c,
        None => record.class.clone(),
    };
    let value = match patch.value {
        Some(v) => if v.as_str().is_empty() {
            None
        } else {
            Some(v)
        },
        None => copy_text(&record.value),
    };
    Ok(
        DnsRecord {
            id: record.id.clone(),
            name,
            ip,
            ttl,
            record_type,
            class,
            value,
            created_at: record.created_at,
            updated_at: record.updated_at,
        },
    )
}

/// Updates the record with the identifier as the patch asks, at `now`.
///
/// On success the record stands where it stood, with the identifier and
/// creation time that it had and an `updated_at` that has not moved back.
/// On any error the store is as it was. Where `update_check` passes, the
/// only error left is the provider's, an `IoError`.
pub fn update_record_at<P: DatastoreProvider>(
    records: &mut DnsRecords,
    provider: &P,
    id: &str,
    update_request: UpdateRecordRequest,
    now: Timestamp,
) -> (res: Result<DnsRecord, RecordError>)
    requires
        old(records).wf(),
    ensures
        final(records).wf(),
        match res {
            Ok(record) => {
                &&& update_check(old(records)@, id@, update_request@, now) == Ok::<
                    RecordView,
                    RecordErrorView,
                >(record@)
                &&& final(records)@ == old(records)@.update(
                    index_of_id(old(records)@, id@),
                    record@,
                )
                &&& lookup(final(records)@, id@) == Some(record@)
                &&& record@.id == id@
                &&& record@.created_at == lookup(old(records)@, id@)->0.created_at
                &&& lookup(old(records)@, id@)->0.updated_at.not_after(record@.updated_at)
            },
            Err(e) => {
                &&& final(records)@ == old(records)@
                &&& match update_check(old(records)@, id@, update_request@, now) {
                    Err(expected) => e@ == expected,
                    Ok(_) => e@ is IoError,
                }
            },
        },
{
    let (record, undo) = match stage_update(records, id, update_request, now) {
        Ok(staged) => staged,
        Err(e) => {
            return Err(e);
        },
    };
    proof {
        lemma_index_of_id(old(records)@, id@);
    }
    let saved = provider.save_all_records(records);
    settle(records, undo, saved, record)
}

/// Updates the record with the identifier as the patch asks, at the current
/// instant: see `update_record_at`.
pub fn update_record<P: DatastoreProvider>(
    records: &mut DnsRecords,
    provider: &P,
    id: &str,
    update_request: UpdateRecordRequest,
) -> (res: Result<DnsRecord, RecordError>)
    requires
        old(records).wf(),
    ensures
        final(records).wf(),
        match res {
            Ok(record) => {
                &&& has_id(old(records)@, id@)
                &&& update_error(old(records)@, id@, update_request@) is None
                &&& exists|now: Timestamp| #[trigger]
                    update_check(old(records)@, id@, update_request@, now) == Ok::<
                        RecordView,
                        RecordErrorView,
                    >(record@)
                &&& final(records)@ == old(records)@.update(
                    index_of_id(old(records)@, id@),
                    record@,
                )
                &&& lookup(final(records)@, id@) == Some(record@)
                &&& record@.id == id@
                &&& record@.created_at == lookup(old(records)@, id@)->0.created_at
                &&& lookup(old(records)@, id@)->0.updated_at.not_after(record@.updated_at)
            },
            Err(e) => {
                &&& final(records)@ == old(records)@
                &&& match update_error(old(records)@, id@, update_request@) {
                    Some(expected) => e@ == expected,
                    None => e@ is IoError,
                }
            },
        },
{
    let now = Timestamp::now();
    update_record_at(records, provider, id, update_request, now)
}

/// Deletes the record with the identifier.
///
/// `NotFound` where the store holds no such record; else the record is
/// taken out and the rest handed to the provider. On any error the store is
/// as it was; where the record is there, the only error is the provider's.
pub fn delete_record<P: DatastoreProvider>(records: &mut DnsRecords, provider: &P, id: &str) -> (res:
    Result<(), RecordError>)
    requires
        old(records).wf(),
    ensures
        final(records).wf(),
        match res {
            Ok(_) => {
                &&& has_id(old(records)@, id@)
                &&& final(records)@ == old(records)@.remove(index_of_id(old(records)@, id@))
                &&& lookup(final(records)@, id@) is None
            },
            Err(e) => {
                &&& final(records)@ == old(records)@
                &&& if has_id(old(records)@, id@) {
                    e@ is IoError
                } else {
                    e@ == RecordErrorView::NotFound(not_found_text(id@))
                }
            },
        },
{
    let undo = match stage_delete(records, id) {
        Ok(staged) => staged,
        Err(e) => {
            return Err(e);
        },
    };
    let saved = provider.save_all_records(records);
    settle(records, undo, saved, ())
}

/// Creates or replaces the record by its identifier, at `now`.
///
/// The record is checked (`upsert_check`), touched, put in place of any
/// record with its identifier, and handed to the provider with the rest of
/// the store. On any error the store is as it was.
pub fn update_record_legacy_at<P: DatastoreProvider>(
    records: &mut DnsRecords,
    provider: &P,
    new_record: DnsRecord,
    now: Timestamp,
) -> (res: Result<DnsRecord, RecordError>)
    requires
        old(records).wf(),
    ensures
        final(records).wf(),
        match res {
            Ok(record) => {
                &&& upsert_check(old(records)@, new_record@, now) == Ok::<
                    RecordView,
                    RecordErrorView,
                >(record@)
                &&& final(records)@ == put(old(records)@, record@)
                &&& lookup(final(records)@, record@.id) == Some(record@)
            },
            Err(e) => {
                &&& final(records)@ == old(records)@
                &&& match upsert_check(old(records)@, new_record@, now) {
                    Err(expected) => e@ == expected,
                    Ok(_) => e@ is IoError,
                }
            },
        },
{
    let (record, undo) = match stage_upsert(records, new_record, now) {
        Ok(staged) => staged,
        Err(e) => {
            return Err(e);
        },
    };
    let saved = provider.save_all_records(records);
    settle(records, undo, saved, record)
}

/// Creates or replaces the record by its identifier, at the current
/// instant: see `update_record_legacy_at`.
pub fn update_record_legacy<P: DatastoreProvider>(
    records: &mut DnsRecords,
    provider: &P,
    new_record: DnsRecord,
) -> (res: Result<DnsRecord, RecordError>)
    requires
        old(records).wf(),
    ensures
        final(records).wf(),
        match res {
            Ok(record) => {
                &&& upsert_error(old(records)@, new_record@) is None
                &&& exists|now: Timestamp| #[trigger]
                    upsert_check(old(records)@, new_record@, now) == Ok::<
                        RecordView,
                        RecordErrorView,
                    >(record@)
                &&& record@.id == new_record@.id
                &&& crate::record::same_content(record@, new_record@)
                &&& record@.created_at == new_record@.created_at
                &&& new_record@.updated_at.not_after(record@.updated_at)
                &&& final(records)@ == put(old(records)@, record@)
                &&& lookup(final(records)@, record@.id) == Some(record@)
            },
            Err(e) => {
                &&& final(records)@ == old(records)@
                &&& match upsert_error(old(records)@, new_record@) {
                    Some(expected) => e@ == expected,
                    None => e@ is IoError,
                }
            },
        },
{
    let now = Timestamp::now();
    update_record_legacy_at(records, provider, new_record, now)
}

} // verus!
