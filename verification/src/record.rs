//! The record of the zone, the rule that says which records are valid, and
//! the errors of the record store.

use crate::addr::Ipv4Addr;
use crate::clock::Timestamp;
use crate::ident::{generate_record_id, is_hyphenated_uuid};
use crate::text::{chars_of, decimal_text, is_space, text_eq, u32_text, char_is_space};
use vstd::prelude::*;
use vstd::string::*;

verus! {

/// The longest time to live that a record may have: seven days.
pub const MAX_TTL: u32 = 604800;

/// One record of the zone.
#[derive(Debug, PartialEq)]
pub struct DnsRecord {
    /// The primary key: assigned on creation, never changed.
    pub id: String,
    pub name: String,
    /// Present on every valid A record.
    pub ip: Option<Ipv4Addr>,
    pub ttl: u32,
    pub record_type: String,
    pub class: String,
    /// The target or text of a CNAME or TXT record.
    pub value: Option<String>,
    pub created_at: Timestamp,
    pub updated_at: Timestamp,
}

/// What a `DnsRecord` holds, as mathematical values.
pub struct RecordView {
    pub id: Seq<char>,
    pub name: Seq<char>,
    pub ip: Option<Ipv4Addr>,
    pub ttl: u32,
    pub record_type: Seq<char>,
    pub class: Seq<char>,
    pub value: Option<Seq<char>>,
    pub created_at: Timestamp,
    pub updated_at: Timestamp,
}

/// The text behind an optional string.
pub open spec fn text_of(value: Option<String>) -> Option<Seq<char>> {
    match value {
        Some(v) => Some(v@),
        None => None,
    }
}

impl View for DnsRecord {
    type V = RecordView;

    open spec fn view(&self) -> RecordView {
        RecordView {
            id: self.id@,
            name: self.name@,
            ip: self.ip,
            ttl: self.ttl,
            record_type: self.record_type@,
            class: self.class@,
            value: text_of(self.value),
            created_at: self.created_at,
            updated_at: self.updated_at,
        }
    }
}

/// A copy of an optional string.
pub fn copy_text(value: &Option<String>) -> (copy: Option<String>)
    ensures
        text_of(copy) == text_of(*value),
{
    match value {
        Some(v) => Some(v.clone()),
        None => None,
    }
}

impl Clone for DnsRecord {
    fn clone(&self) -> (copy: Self)
        ensures
            copy@ == self@,
    {
        DnsRecord {
            id: self.id.clone(),
            name: self.name.clone(),
            ip: self.ip,
            ttl: self.ttl,
            record_type: self.record_type.clone(),
            class: self.class.clone(),
            value: copy_text(&self.value),
            created_at: self.created_at,
            updated_at: self.updated_at,
        }
    }
}

// ---------------------------------------------------------------------------
// Errors
// ---------------------------------------------------------------------------

/// Why a record, or an argument, is not valid. Each variant carries the
/// offending text.
#[derive(Debug, Clone)]
pub enum ValidationError {
    InvalidDomainName(String),
    InvalidIpAddress(String),
    InvalidTtl(String),
    InvalidRecordType(String),
    InvalidClass(String),
    MissingField(String),
    InvalidArgument(String),
}

/// What a `ValidationError` holds, as mathematical values.
pub enum ValidationErrorView {
    InvalidDomainName(Seq<char>),
    InvalidIpAddress(Seq<char>),
    InvalidTtl(Seq<char>),
    InvalidRecordType(Seq<char>),
    InvalidClass(Seq<char>),
    MissingField(Seq<char>),
    InvalidArgument(Seq<char>),
}

impl View for ValidationError {
    type V = ValidationErrorView;

    open spec fn view(&self) -> ValidationErrorView {
        match self {
            ValidationError::InvalidDomainName(s) => ValidationErrorView::InvalidDomainName(s@),
            ValidationError::InvalidIpAddress(s) => ValidationErrorView::InvalidIpAddress(s@),
            ValidationError::InvalidTtl(s) => ValidationErrorView::InvalidTtl(s@),
            ValidationError::InvalidRecordType(s) => ValidationErrorView::InvalidRecordType(s@),
            ValidationError::InvalidClass(s) => ValidationErrorView::InvalidClass(s@),
            ValidationError::MissingField(s) => ValidationErrorView::MissingField(s@),
            ValidationError::InvalidArgument(s) => ValidationErrorView::InvalidArgument(s@),
        }
    }
}

/// The message of a validation error.
pub open spec fn validation_message(e: ValidationErrorView) -> Seq<char> {
    match e {
        ValidationErrorView::InvalidDomainName(s) => "Invalid domain name: "@ + s,
        ValidationErrorView::InvalidIpAddress(s) => "Invalid IP address: "@ + s,
        ValidationErrorView::InvalidTtl(s) => "Invalid TTL value: "@ + s,
        ValidationErrorView::InvalidRecordType(s) => "Invalid record type: "@ + s,
        ValidationErrorView::InvalidClass(s) => "Invalid class: "@ + s,
        ValidationErrorView::MissingField(s) => "Missing required field: "@ + s,
        ValidationErrorView::InvalidArgument(s) => "Invalid argument: "@ + s,
    }
}

/// `prefix` followed by `detail`.
pub fn prefixed(prefix: &str, detail: &str) -> (s: String)
    ensures
        s@ == prefix@ + detail@,
{
    let mut s = prefix.to_string();
    s.append(detail);
    s
}

impl ValidationError {
    /// The message of the error, for people.
    pub fn message(&self) -> (s: String)
        ensures
            s@ == validation_message(self@),
    {
        match self {
            ValidationError::InvalidDomainName(d) => prefixed("Invalid domain name: ", d.as_str()),
            ValidationError::InvalidIpAddress(d) => prefixed("Invalid IP address: ", d.as_str()),
            ValidationError::InvalidTtl(d) => prefixed("Invalid TTL value: ", d.as_str()),
            ValidationError::InvalidRecordType(d) => prefixed("Invalid record type: ", d.as_str()),
            ValidationError::InvalidClass(d) => prefixed("Invalid class: ", d.as_str()),
            ValidationError::MissingField(d) => prefixed("Missing required field: ", d.as_str()),
            ValidationError::InvalidArgument(d) => prefixed("Invalid argument: ", d.as_str()),
        }
    }
}

/// Why an operation on the record store failed.
#[derive(Debug, Clone)]
pub enum RecordError {
    NotFound(String),
    ValidationError(ValidationError),
    DuplicateRecord(String),
    IoError(String),
    SerializationError(String),
}

/// What a `RecordError` holds, as mathematical values.
pub enum RecordErrorView {
    NotFound(Seq<char>),
    ValidationError(ValidationErrorView),
    DuplicateRecord(Seq<char>),
    IoError(Seq<char>),
    SerializationError(Seq<char>),
}

impl View for RecordError {
    type V = RecordErrorView;

    open spec fn view(&self) -> RecordErrorView {
        match self {
            RecordError::NotFound(s) => RecordErrorView::NotFound(s@),
            RecordError::ValidationError(e) => RecordErrorView::ValidationError(e@),
            RecordError::DuplicateRecord(s) => RecordErrorView::DuplicateRecord(s@),
            RecordError::IoError(s) => RecordErrorView::IoError(s@),
            RecordError::SerializationError(s) => RecordErrorView::SerializationError(s@),
        }
    }
}

/// The HTTP status that stands for an error.
pub open spec fn status_of(e: RecordErrorView) -> u16 {
    match e {
        RecordErrorView::NotFound(_) => 404,
        RecordErrorView::ValidationError(_) => 400,
        RecordErrorView::DuplicateRecord(_) => 409,
        RecordErrorView::IoError(_) => 500,
        RecordErrorView::SerializationError(_) => 500,
    }
}

/// The message of an error.
pub open spec fn error_message(e: RecordErrorView) -> Seq<char> {
    match e {
        RecordErrorView::NotFound(s) => "Record not found: "@ + s,
        RecordErrorView::ValidationError(v) => "Validation error: "@ + validation_message(v),
        RecordErrorView::DuplicateRecord(s) => "Duplicate record name: "@ + s,
        RecordErrorView::IoError(s) => "IO error: "@ + s,
        RecordErrorView::SerializationError(s) => "Serialization error: "@ + s,
    }
}

/// The label under which a failure is counted.
pub open spec fn error_label(e: RecordErrorView) -> Seq<char> {
    match e {
        RecordErrorView::NotFound(_) => "not_found"@,
        RecordErrorView::ValidationError(_) => "validation_error"@,
        RecordErrorView::DuplicateRecord(_) => "duplicate_record"@,
        RecordErrorView::IoError(_) => "io_error"@,
        RecordErrorView::SerializationError(_) => "serialization_error"@,
    }
}

impl RecordError {
    /// The HTTP status that stands for the error: 404 for a record that is
    /// not there, 400 for an invalid one, 409 for a duplicate, 500 for
    /// failures of storage and serialisation.
    pub fn to_status_code(&self) -> (code: u16)
        ensures
            code == status_of(self@),
    {
        match self {
            RecordError::NotFound(_) => 404,
            RecordError::ValidationError(_) => 400,
            RecordError::DuplicateRecord(_) => 409,
            RecordError::IoError(_) => 500,
            RecordError::SerializationError(_) => 500,
        }
    }

    /// The message of the error, for people.
    pub fn message(&self) -> (s: String)
        ensures
            s@ == error_message(self@),
    {
        match self {
            RecordError::NotFound(d) => prefixed("Record not found: ", d.as_str()),
            RecordError::ValidationError(e) => prefixed("Validation error: ", e.message().as_str()),
            RecordError::DuplicateRecord(d) => prefixed("Duplicate record name: ", d.as_str()),
            RecordError::IoError(d) => prefixed("IO error: ", d.as_str()),
            RecordError::SerializationError(d) => prefixed("Serialization error: ", d.as_str()),
        }
    }

    /// The label under which the failure is counted.
    pub fn label(&self) -> (s: &'static str)
        ensures
            s@ == error_label(self@),
    {
        match self {
            RecordError::NotFound(_) => "not_found",
            RecordError::ValidationError(_) => "validation_error",
            RecordError::DuplicateRecord(_) => "duplicate_record",
            RecordError::IoError(_) => "io_error",
            RecordError::SerializationError(_) => "serialization_error",
        }
    }
}

// ---------------------------------------------------------------------------
// Validity
// ---------------------------------------------------------------------------

/// What `char::is_alphanumeric` says of a character.
pub uninterp spec fn unicode_alphanumeric(c: char) -> bool;

/// `char::is_alphanumeric`: whether the character is a letter or a number
/// by the Unicode tables of the standard library.
#[verifier::external_body]
fn char_is_alphanumeric(c: char) -> (b: bool)
    ensures
        b == unicode_alphanumeric(c),
{
    c.is_alphanumeric()
}

/// An ASCII letter or digit.
pub open spec fn ascii_alphanumeric(c: char) -> bool {
    ('0' <= c <= '9') || ('a' <= c <= 'z') || ('A' <= c <= 'Z')
}

/// A character that a name may hold: `.`, `-`, `_`, or a letter or digit.
/// For ASCII that is decided here; beyond it the Unicode tables decide, and
/// white space is never one.
pub open spec fn name_char(c: char) -> bool {
    c == '.' || c == '-' || c == '_' || (if (c as u32) < 128 {
        ascii_alphanumeric(c)
    } else {
        !is_space(c) && unicode_alphanumeric(c)
    })
}

/// Every character of the name is one that a name may hold.
pub open spec fn name_chars(name: Seq<char>) -> bool {
    forall|i: int| 0 <= i < name.len() ==> name_char(#[trigger] name[i])
}

/// One of the record types that can be stored.
pub open spec fn is_record_type(t: Seq<char>) -> bool {
    t == "A"@ || t == "AAAA"@ || t == "CNAME"@ || t == "TXT"@ || t == "MX"@ || t == "NS"@ || t
        == "PTR"@ || t == "SOA"@ || t == "SRV"@
}

/// One of the classes that can be stored.
pub open spec fn is_class(c: Seq<char>) -> bool {
    c == "IN"@ || c == "CH"@ || c == "HS"@
}

/// A type whose records must carry a value.
pub open spec fn needs_value(t: Seq<char>) -> bool {
    t == "CNAME"@ || t == "TXT"@
}

/// The first rule that the record breaks, or `Ok`.
///
/// In order: the name is not empty; its characters are letters, digits,
/// `.`, `-` or `_`; the TTL is at most seven days; type and class are known;
/// an A record has an address; a CNAME or TXT record has a value.
pub open spec fn validate_spec(r: RecordView) -> Result<(), ValidationErrorView> {
    if r.name.len() == 0 {
        Err(ValidationErrorView::MissingField("name"@))
    } else if !name_chars(r.name) {
        Err(ValidationErrorView::InvalidDomainName(r.name))
    } else if r.ttl > MAX_TTL {
        Err(ValidationErrorView::InvalidTtl("TTL too large: "@ + decimal_text(r.ttl as int)))
    } else if !is_record_type(r.record_type) {
        Err(ValidationErrorView::InvalidRecordType(r.record_type))
    } else if !is_class(r.class) {
        Err(ValidationErrorView::InvalidClass(r.class))
    } else if r.record_type == "A"@ && r.ip is None {
        Err(ValidationErrorView::MissingField("ip for A record"@))
    } else if needs_value(r.record_type) && r.value is None {
        Err(ValidationErrorView::MissingField("value for "@ + r.record_type + " record"@))
    } else {
        Ok(())
    }
}

/// The record breaks no rule.
pub open spec fn valid_record(r: RecordView) -> bool {
    validate_spec(r) is Ok
}

/// Whether a name may hold `c`.
pub fn is_name_char(c: char) -> (b: bool)
    ensures
        b == name_char(c),
{
    if c == '.' || c == '-' || c == '_' {
        true
    } else if (c as u32) < 128 {
        ('0' <= c && c <= '9') || ('a' <= c && c <= 'z') || ('A' <= c && c <= 'Z')
    } else {
        !char_is_space(c) && char_is_alphanumeric(c)
    }
}

/// Whether every character of the name is one that a name may hold.
pub fn has_name_chars(name: &str) -> (b: bool)
    ensures
        b == name_chars(name@),
{
    let chars = chars_of(name);
    let mut i: usize = 0;
    while i < chars.len()
        invariant
            i <= chars@.len(),
            chars@ == name@,
            forall|k: int| 0 <= k < i ==> name_char(#[trigger] name@[k]),
        decreases chars@.len() - i,
    {
        if !is_name_char(chars[i]) {
            assert(!name_char(name@[i as int]));
            return false;
        }
        i += 1;
    }
    true
}

/// Whether `t` is one of the record types that can be stored.
pub fn known_record_type(t: &str) -> (b: bool)
    ensures
        b == is_record_type(t@),
{
    text_eq(t, "A") || text_eq(t, "AAAA") || text_eq(t, "CNAME") || text_eq(t, "TXT") || text_eq(
        t,
        "MX",
    ) || text_eq(t, "NS") || text_eq(t, "PTR") || text_eq(t, "SOA") || text_eq(t, "SRV")
}

/// Whether `c` is one of the classes that can be stored.
pub fn known_class(c: &str) -> (b: bool)
    ensures
        b == is_class(c@),
{
    text_eq(c, "IN") || text_eq(c, "CH") || text_eq(c, "HS")
}

impl DnsRecord {
    /// A record with a fresh identifier whose two timestamps are the
    /// current instant.
    pub fn new(
        name: String,
        ip: Option<Ipv4Addr>,
        ttl: u32,
        record_type: String,
        class: String,
        value: Option<String>,
    ) -> (r: DnsRecord)
        ensures
            is_hyphenated_uuid(r@.id),
            r@.name == name@,
            r@.ip == ip,
            r@.ttl == ttl,
            r@.record_type == record_type@,
            r@.class == class@,
            r@.value == text_of(value),
            r@.created_at == r@.updated_at,
    {
        DnsRecord::new_at(
            generate_record_id(),
            Timestamp::now(),
            name,
            ip,
            ttl,
            record_type,
            class,
            value,
        )
    }

    /// A record with the given identifier whose two timestamps are `now`.
    pub fn new_at(
        id: String,
        now: Timestamp,
        name: String,
        ip: Option<Ipv4Addr>,
        ttl: u32,
        record_type: String,
        class: String,
        value: Option<String>,
    ) -> (r: DnsRecord)
        ensures
            r@ == (RecordView {
                id: id@,
                name: name@,
                ip,
                ttl,
                record_type: record_type@,
                class: class@,
                value: text_of(value),
                created_at: now,
                updated_at: now,
            }),
    {
        DnsRecord { id, name, ip, ttl, record_type, class, value, created_at: now, updated_at: now }
    }

    /// Moves `updated_at` forward to `now`. It never moves back, and never
    /// before `created_at`.
    pub fn touch_at(&mut self, now: Timestamp)
        ensures
            final(self)@ == (RecordView {
                updated_at: touched(old(self)@, now),
                ..old(self)@
            }),
    {
        self.updated_at = self.updated_at.later_of(now).later_of(self.created_at);
    }

    /// Moves `updated_at` forward to the current instant.
    pub fn touch(&mut self)
        ensures
            final(self)@.id == old(self)@.id,
            final(self)@.name == old(self)@.name,
            final(self)@.ip == old(self)@.ip,
            final(self)@.ttl == old(self)@.ttl,
            final(self)@.record_type == old(self)@.record_type,
            final(self)@.class == old(self)@.class,
            final(self)@.value == old(self)@.value,
            final(self)@.created_at == old(self)@.created_at,
            old(self)@.updated_at.not_after(final(self)@.updated_at),
            final(self)@.created_at.not_after(final(self)@.updated_at),
    {
        self.touch_at(Timestamp::now());
    }

    /// Checks the record against the rules: see `validate_spec`.
    pub fn validate(&self) -> (res: Result<(), ValidationError>)
        ensures
            match res {
                Ok(_) => validate_spec(self@) is Ok,
                Err(e) => validate_spec(self@) == Err::<(), ValidationErrorView>(e@),
            },
    {
        if self.name.as_str().is_empty() {
            return Err(ValidationError::MissingField("name".to_string()));
        }
        if !has_name_chars(self.name.as_str()) {
            return Err(ValidationError::InvalidDomainName(self.name.clone()));
        }
        if self.ttl > MAX_TTL {
            return Err(
                ValidationError::InvalidTtl(prefixed("TTL too large: ", u32_text(self.ttl).as_str())),
            );
        }
        if !known_record_type(self.record_type.as_str()) {
            return Err(ValidationError::InvalidRecordType(self.record_type.clone()));
        }
        if !known_class(self.class.as_str()) {
            return Err(ValidationError::InvalidClass(self.class.clone()));
        }
        if text_eq(self.record_type.as_str(), "A") && self.ip.is_none() {
            return Err(ValidationError::MissingField("ip for A record".to_string()));
        }
        if (text_eq(self.record_type.as_str(), "CNAME") || text_eq(self.record_type.as_str(), "TXT"))
            && self.value.is_none() {
            let mut field = prefixed("value for ", self.record_type.as_str());
            field.append(" record");
            return Err(ValidationError::MissingField(field));
        }
        Ok(())
    }

    /// Whether the two records agree in everything but identifier and
    /// timestamps.
    pub fn has_same_content(&self, other: &DnsRecord) -> (same: bool)
        ensures
            same == same_content(self@, other@),
    {
        let values_agree = match (&self.value, &other.value) {
            (Some(a), Some(b)) => text_eq(a.as_str(), b.as_str()),
            (None, None) => true,
            _ => false,
        };
        text_eq(self.name.as_str(), other.name.as_str()) && self.ip == other.ip && self.ttl
            == other.ttl && text_eq(self.record_type.as_str(), other.record_type.as_str())
            && text_eq(self.class.as_str(), other.class.as_str()) && values_agree
    }
}

/// The instant that `updated_at` moves to when the record is touched at
/// `now`: the latest of `now`, where it stood, and `created_at`.
pub open spec fn touched(r: RecordView, now: Timestamp) -> Timestamp {
    r.updated_at.latest(now).latest(r.created_at)
}

/// The two records agree in everything but identifier and timestamps.
pub open spec fn same_content(a: RecordView, b: RecordView) -> bool {
    a.name == b.name && a.ip == b.ip && a.ttl == b.ttl && a.record_type == b.record_type && a.class
        == b.class && a.value == b.value
}

} // verus!
