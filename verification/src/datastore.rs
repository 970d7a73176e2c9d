//! The text form of the datastore: one record per line, fields between
//! colons, comments behind `#`.
//!
//! The canonical line is `id:name:ip:ttl:type:class[:value]`, where the
//! identifier is a UUID of thirty-six characters. Lines of an older form
//! without identifier are read too.

use crate::addr::{ipv4_text, parse_ipv4_spec, Ipv4Addr};
use crate::clock::{utc_now_plain, Timestamp};
use crate::ident::{generate_record_id, is_record_id, is_stored_id};
use crate::record::{valid_record, DnsRecord, RecordView};
use crate::store::{key_taken, put, DnsRecords};
use crate::text::{
    contains_text, decimal_text, join, lemma_join_push, parse_u32, parse_u32_spec, split,
    split_text, text_contains, trim, trim_text, u32_text,
};
use vstd::prelude::*;
use vstd::string::*;

verus! {

// ---------------------------------------------------------------------------
// Writing
// ---------------------------------------------------------------------------

/// The address field of a line: the address in dotted decimal, or nothing.
pub open spec fn ip_field(ip: Option<Ipv4Addr>) -> Seq<char> {
    match ip {
        Some(ip) => ipv4_text(ip),
        None => Seq::empty(),
    }
}

/// The fields of the line of a record: six, and the value where there is
/// one.
pub open spec fn record_fields(r: RecordView) -> Seq<Seq<char>> {
    let fixed = seq![
        r.id,
        r.name,
        ip_field(r.ip),
        decimal_text(r.ttl as int),
        r.record_type,
        r.class,
    ];
    match r.value {
        Some(v) => fixed.push(v),
        None => fixed,
    }
}

/// The line of a record: its fields with colons between them.
pub open spec fn record_line(r: RecordView) -> Seq<char> {
    join(record_fields(r), ':')
}

/// The lines, each followed by a line feed.
pub open spec fn lines_text(lines: Seq<Seq<char>>) -> Seq<char>
    decreases lines.len(),
{
    if lines.len() == 0 {
        Seq::empty()
    } else {
        lines_text(lines.drop_last()) + lines.last() + seq!['\n']
    }
}

/// The comment lines that stand at the head of a saved datastore, and the
/// empty line after them.
pub open spec fn saved_header() -> Seq<Seq<char>> {
    seq![
        "# DNS Records File - Format: id:name:ip:ttl:type:class:value"@,
        "# id: UUID identifier for the record"@,
        "# name: domain name"@,
        "# ip: IP address (for A records) or empty for other types"@,
        "# ttl: time to live in seconds"@,
        "# type: record type (A, CNAME, TXT, etc.)"@,
        "# class: record class (usually IN)"@,
        "# value: additional value for CNAME, TXT records (optional)"@,
        ""@,
    ]
}

/// The lines of the records, in listing order.
pub open spec fn record_lines(s: Seq<RecordView>) -> Seq<Seq<char>> {
    Seq::new(s.len(), |i: int| record_line(s[i]))
}

/// The text of a saved datastore: the header, then one line per record.
pub open spec fn render(s: Seq<RecordView>) -> Seq<char> {
    lines_text(saved_header() + record_lines(s))
}

/// Appends `line` and a line feed to `out`.
fn push_line(out: &mut String, line: &str, Ghost(lines): Ghost<Seq<Seq<char>>>)
    requires
        old(out)@ == lines_text(lines),
    ensures
        final(out)@ == lines_text(lines.push(line@)),
{
    proof {
        reveal_strlit("\n");
    }
    out.append(line);
    out.append("\n");
    proof {
        let next = lines.push(line@);
        assert(next.drop_last() =~= lines);
        assert(next.last() == line@);
        assert("\n"@ =~= seq!['\n']);
        assert(out@ =~= lines_text(lines) + line@ + seq!['\n']);
    }
}

/// The line of a record.
pub fn line_of(record: &DnsRecord) -> (line: String)
    ensures
        line@ == record_line(record@),
{
    proof {
        reveal_strlit(":");
        reveal_with_fuel(join, 8);
    }
    let mut line = record.id.clone();
    line.append(":");
    line.append(record.name.as_str());
    line.append(":");
    let ghost ip_text = ip_field(record.ip);
    match record.ip {
        Some(ip) => {
            line.append(ip.to_text().as_str());
        },
        None => {},
    }
    assert(line@ =~= record@.id + seq![':'] + record@.name + seq![':'] + ip_text) by {
        assert(":"@ =~= seq![':']);
    }
    line.append(":");
    line.append(u32_text(record.ttl).as_str());
    line.append(":");
    line.append(record.record_type.as_str());
    line.append(":");
    line.append(record.class.as_str());
    let ghost fixed = seq![
        record@.id,
        record@.name,
        ip_text,
        decimal_text(record.ttl as int),
        record@.record_type,
        record@.class,
    ];
    proof {
        assert(":"@ =~= seq![':']);
        let f1 = fixed.drop_first();
        let f2 = f1.drop_first();
        let f3 = f2.drop_first();
        let f4 = f3.drop_first();
        let f5 = f4.drop_first();
        assert(join(f5, ':') == fixed[5]);
        assert(join(f4, ':') == fixed[4] + seq![':'] + join(f5, ':'));
        assert(join(f3, ':') == fixed[3] + seq![':'] + join(f4, ':'));
        assert(join(f2, ':') == fixed[2] + seq![':'] + join(f3, ':'));
        assert(join(f1, ':') == fixed[1] + seq![':'] + join(f2, ':'));
        assert(join(fixed, ':') == fixed[0] + seq![':'] + join(f1, ':'));
        assert(line@ =~= join(fixed, ':'));
    }
    match &record.value {
        Some(v) => {
            line.append(":");
            line.append(v.as_str());
            proof {
                lemma_join_push(fixed, v@, ':');
                assert(line@ =~= join(fixed.push(v@), ':'));
            }
        },
        None => {},
    }
    line
}

/// The text of the datastore that holds the records: the header, then one
/// line per record in listing order.
pub fn save_records_to_file(records: &DnsRecords) -> (content: String)
    ensures
        content@ == render(records@),
{
    let mut out = String::new();
    let ghost mut lines: Seq<Seq<char>> = Seq::empty();
    push_line(
        &mut out,
        "# DNS Records File - Format: id:name:ip:ttl:type:class:value",
        Ghost(lines),
    );
    proof {
        lines = lines.push("# DNS Records File - Format: id:name:ip:ttl:type:class:value"@);
    }
    push_line(&mut out, "# id: UUID identifier for the record", Ghost(lines));
    proof {
        lines = lines.push("# id: UUID identifier for the record"@);
    }
    push_line(&mut out, "# name: domain name", Ghost(lines));
    proof {
        lines = lines.push("# name: domain name"@);
    }
    push_line(
        &mut out,
        "# ip: IP address (for A records) or empty for other types",
        Ghost(lines),
    );
    proof {
        lines = lines.push("# ip: IP address (for A records) or empty for other types"@);
    }
    push_line(&mut out, "# ttl: time to live in seconds", Ghost(lines));
    proof {
        lines = lines.push("# ttl: time to live in seconds"@);
    }
    push_line(&mut out, "# type: record type (A, CNAME, TXT, etc.)", Ghost(lines));
    proof {
        lines = lines.push("# type: record type (A, CNAME, TXT, etc.)"@);
    }
    push_line(&mut out, "# class: record class (usually IN)", Ghost(lines));
    proof {
        lines = lines.push("# class: record class (usually IN)"@);
    }
    push_line(
        &mut out,
        "# value: additional value for CNAME, TXT records (optional)",
        Ghost(lines),
    );
    proof {
        lines = lines.push("# value: additional value for CNAME, TXT records (optional)"@);
    }
    push_line(&mut out, "", Ghost(lines));
    proof {
        lines = lines.push(""@);
        assert(lines =~= saved_header());
        assert(lines =~= saved_header() + record_lines(records@).take(0));
    }
    let mut i: usize = 0;
    while i < records.len()
        invariant
            i <= records@.len(),
            out@ == lines_text(lines),
            lines == saved_header() + record_lines(records@).take(i as int),
        decreases records@.len() - i,
    {
        let line = line_of(records.record_at(i));
        push_line(&mut out, line.as_str(), Ghost(lines));
        proof {
            assert(lines.push(line@) =~= saved_header() + record_lines(records@).take(i + 1));
            lines = lines.push(line@);
        }
        i += 1;
    }
    proof {
        assert(record_lines(records@).take(i as int) =~= record_lines(records@));
    }
    out
}

// ---------------------------------------------------------------------------
// Reading
// ---------------------------------------------------------------------------

/// The record that the fields of a line write, read at `now`.
///
/// Six or more fields behind a stored identifier are a canonical line. Five
/// or more fields otherwise are a line of the older form `name:ip:ttl:type:
/// class`, and four fields that start with `C` one of the older form
/// `name:target:ttl:class` for a CNAME record; both get `fresh_id`. A line
/// whose TTL does not read as a number writes no record.
pub open spec fn fields_record(parts: Seq<Seq<char>>, fresh_id: Seq<char>, now: Timestamp) -> Option<
    RecordView,
> {
    if parts.len() >= 6 && is_record_id(parts[0]) {
        match parse_u32_spec(parts[3]) {
            Some(ttl) => Some(
                RecordView {
                    id: parts[0],
                    name: parts[1],
                    ip: parse_ipv4_spec(parts[2]),
                    ttl,
                    record_type: parts[4],
                    class: parts[5],
                    value: if parts.len() > 6 {
                        Some(parts[6])
                    } else {
                        None
                    },
                    created_at: now,
                    updated_at: now,
                },
            ),
            None => None,
        }
    } else if parts.len() >= 5 {
        match parse_u32_spec(parts[2]) {
            Some(ttl) => Some(
                RecordView {
                    id: fresh_id,
                    name: parts[0],
                    ip: parse_ipv4_spec(parts[1]),
                    ttl,
                    record_type: parts[3],
                    class: parts[4],
                    value: None,
                    created_at: now,
                    updated_at: now,
                },
            ),
            None => None,
        }
    } else if parts.len() == 4 && parts[0].len() > 0 && parts[0][0] == 'C' {
        match parse_u32_spec(parts[2]) {
            Some(ttl) => Some(
                RecordView {
                    id: fresh_id,
                    name: parts[0],
                    ip: None,
                    ttl,
                    record_type: "CNAME"@,
                    class: parts[3],
                    value: Some(parts[1]),
                    created_at: now,
                    updated_at: now,
                },
            ),
            None => None,
        }
    } else {
        None
    }
}

/// A line that writes no record whatever its fields: an empty line, or a
/// comment.
pub open spec fn is_comment(line: Seq<char>) -> bool {
    line.len() == 0 || line[0] == '#'
}

/// The record that a line writes, once the white space at its ends is
/// taken off.
pub open spec fn line_record(line: Seq<char>, fresh_id: Seq<char>, now: Timestamp) -> Option<
    RecordView,
> {
    if is_comment(trim(line)) {
        None
    } else {
        fields_record(split(trim(line), ':'), fresh_id, now)
    }
}

/// The record can be taken into the store: it is valid, its name and type
/// are free, and it was not updated before it was created.
pub open spec fn acceptable(s: Seq<RecordView>, r: RecordView) -> bool {
    valid_record(r) && !key_taken(s, r) && r.created_at.not_after(r.updated_at)
}

/// The store after `r` was offered to it: with `r` in place of any record
/// with its identifier where `r` can be taken, else as it was.
pub open spec fn offered(s: Seq<RecordView>, r: Option<RecordView>) -> Seq<RecordView> {
    match r {
        Some(r) => if acceptable(s, r) {
            put(s, r)
        } else {
            s
        },
        None => s,
    }
}

/// The store that the lines write, read one after the other at `now`, where
/// line `i` gets the fresh identifier `ids[i]` if it needs one.
pub open spec fn load_lines(lines: Seq<Seq<char>>, ids: Seq<Seq<char>>, now: Timestamp) -> Seq<
    RecordView,
>
    decreases lines.len(),
{
    if lines.len() == 0 {
        Seq::empty()
    } else {
        offered(
            load_lines(lines.drop_last(), ids.drop_last(), now),
            line_record(lines.last(), ids.last(), now),
        )
    }
}

/// The store that the text of a datastore writes.
pub open spec fn load_spec(content: Seq<char>, ids: Seq<Seq<char>>, now: Timestamp) -> Seq<RecordView> {
    load_lines(split(content, '\n'), ids, now)
}

/// Reads one line of a datastore at `now`: see `line_record`.
pub fn parse_record_line(line: &str, fresh_id: String, now: Timestamp) -> (found: Option<DnsRecord>)
    ensures
        match found {
            Some(r) => line_record(line@, fresh_id@, now) == Some(r@),
            None => line_record(line@, fresh_id@, now) is None,
        },
{
    let trimmed = trim_text(line);
    if trimmed.as_str().is_empty() {
        return None;
    }
    if trimmed.as_str().get_char(0) == '#' {
        return None;
    }
    let parts = split_text(trimmed.as_str(), ':');
    let ghost fields = split(trim(line@), ':');
    let count = parts.len();
    if count >= 6 && is_stored_id(parts[0].as_str()) {
        let ttl = match parse_u32(parts[3].as_str()) {
            Some(t) => t,
            None => {
                return None;
            },
        };
        let value = if count > 6 {
            Some(parts[6].clone())
        } else {
            None
        };
        Some(
            DnsRecord {
                id: parts[0].clone(),
                name: parts[1].clone(),
                ip: Ipv4Addr::parse(parts[2].as_str()),
                ttl,
                record_type: parts[4].clone(),
                class: parts[5].clone(),
                value,
                created_at: now,
                updated_at: now,
            },
        )
    } else if count >= 5 {
        let ttl = match parse_u32(parts[2].as_str()) {
            Some(t) => t,
            None => {
                return None;
            },
        };
        Some(
            DnsRecord {
                id: fresh_id,
                name: parts[0].clone(),
                ip: Ipv4Addr::parse(parts[1].as_str()),
                ttl,
                record_type: parts[3].clone(),
                class: parts[4].clone(),
                value: None,
                created_at: now,
                updated_at: now,
            },
        )
    } else if count == 4 && !parts[0].as_str().is_empty() && parts[0].as_str().get_char(0) == 'C' {
        let ttl = match parse_u32(parts[2].as_str()) {
            Some(t) => t,
            None => {
                return None;
            },
        };
        Some(
            DnsRecord {
                id: fresh_id,
                name: parts[0].clone(),
                ip: None,
                ttl,
                record_type: "CNAME".to_string(),
                class: parts[3].clone(),
                value: Some(parts[1].clone()),
                created_at: now,
                updated_at: now,
            },
        )
    } else {
        None
    }
}

/// Offers a record to the store: it is taken, in place of any record with
/// its identifier, where it is valid, its name and type are free, and it
/// was not updated before it was created. Tells whether it was taken.
pub fn offer_record(records: &mut DnsRecords, record: DnsRecord) -> (taken: bool)
    requires
        old(records).wf(),
    ensures
        final(records).wf(),
        taken == acceptable(old(records)@, record@),
        final(records)@ == offered(old(records)@, Some(record@)),
{
    if record.validate().is_err() {
        return false;
    }
    if records.key_taken(&record) {
        return false;
    }
    if !record.created_at.at_or_before(&record.updated_at) {
        return false;
    }
    let _ = records.put_at_place(record);
    true
}

/// Reads the text of a datastore at `now`.
///
/// The lines are read one after the other; a line that writes no record, or
/// a record that cannot be taken, is passed over. Each line of an older
/// form gets a fresh identifier, so the result is fixed by the text, the
/// instant and those identifiers.
pub fn load_records_at(content: &str, now: Timestamp) -> (records: DnsRecords)
    ensures
        records.wf(),
        exists|ids: Seq<Seq<char>>|
            ids.len() == split(content@, '\n').len() && #[trigger] load_spec(content@, ids, now)
                == records@,
{
    let lines = split_text(content, '\n');
    let ghost all = split(content@, '\n');
    let mut records = DnsRecords::new();
    let ghost mut ids: Seq<Seq<char>> = Seq::empty();
    let mut i: usize = 0;
    proof {
        assert(all.take(0) =~= Seq::<Seq<char>>::empty());
    }
    while i < lines.len()
        invariant
            i <= lines@.len(),
            all == split(content@, '\n'),
            lines@.len() == all.len(),
            forall|k: int| 0 <= k < lines@.len() ==> (#[trigger] lines@[k])@ == all[k],
            records.wf(),
            ids.len() == i,
            records@ == load_lines(all.take(i as int), ids, now),
        decreases lines@.len() - i,
    {
        let fresh = generate_record_id();
        let ghost fresh_id = fresh@;
        let ghost before = records@;
        match parse_record_line(lines[i].as_str(), fresh, now) {
            Some(record) => {
                let _ = offer_record(&mut records, record);
            },
            None => {},
        }
        proof {
            let next_lines = all.take(i + 1);
            let next_ids = ids.push(fresh_id);
            assert(next_lines.drop_last() =~= all.take(i as int));
            assert(next_lines.last() == all[i as int]);
            assert(next_ids.drop_last() =~= ids);
            assert(next_ids.last() == fresh_id);
            assert(records@ == offered(before, line_record(all[i as int], fresh_id, now)));
            ids = next_ids;
        }
        i += 1;
    }
    proof {
        assert(all.take(i as int) =~= all);
        assert(load_spec(content@, ids, now) == records@);
    }
    records
}

/// Reads the text of a datastore at the current instant: see
/// `load_records_at`.
pub fn load_records_from_file(content: &str) -> (records: DnsRecords)
    ensures
        records.wf(),
        exists|ids: Seq<Seq<char>>, now: Timestamp| #[trigger]
            load_spec(content@, ids, now) == records@,
{
    let now = Timestamp::now();
    load_records_at(content, now)
}

/// The store that the text of a datastore writes, or the empty store where
/// the datastore could not be read.
pub fn load_records(content: Option<&str>) -> (records: DnsRecords)
    ensures
        records.wf(),
        match content {
            None => records@ == Seq::<RecordView>::empty(),
            Some(text) => exists|ids: Seq<Seq<char>>, now: Timestamp| #[trigger]
                load_spec(text@, ids, now) == records@,
        },
{
    match content {
        Some(text) => load_records_from_file(text),
        None => DnsRecords::new(),
    }
}

// ---------------------------------------------------------------------------
// The format of a datastore
// ---------------------------------------------------------------------------

/// The words by which a datastore in the current format is known.
pub open spec fn format_marker() -> Seq<char> {
    "DNS Records File - Enhanced UUID Format"@
}

/// A line that only a datastore in the current format holds: one with the
/// marker, or a canonical line of a record.
pub open spec fn is_current_line(line: Seq<char>) -> bool {
    contains_text(trim(line), format_marker()) || (!is_comment(trim(line)) && split(
        trim(line),
        ':',
    ).len() >= 6 && is_record_id(split(trim(line), ':')[0]))
}

/// The text is a datastore in the current format: one of its lines shows
/// it.
pub open spec fn format_ok(content: Seq<char>) -> bool {
    exists|i: int|
        0 <= i < split(content, '\n').len() && is_current_line(#[trigger] split(content, '\n')[i])
}

/// Whether the line shows a datastore in the current format.
pub fn line_is_current(line: &str) -> (b: bool)
    ensures
        b == is_current_line(line@),
{
    let trimmed = trim_text(line);
    if text_contains(trimmed.as_str(), "DNS Records File - Enhanced UUID Format") {
        return true;
    }
    if trimmed.as_str().is_empty() {
        return false;
    }
    if trimmed.as_str().get_char(0) == '#' {
        return false;
    }
    let parts = split_text(trimmed.as_str(), ':');
    parts.len() >= 6 && is_stored_id(parts[0].as_str())
}

/// Whether the text is a datastore in the current format.
pub fn validate_datastore_format(content: &str) -> (ok: bool)
    ensures
        ok == format_ok(content@),
{
    let lines = split_text(content, '\n');
    let ghost all = split(content@, '\n');
    let mut i: usize = 0;
    while i < lines.len()
        invariant
            i <= lines@.len(),
            all == split(content@, '\n'),
            lines@.len() == all.len(),
            forall|k: int| 0 <= k < lines@.len() ==> (#[trigger] lines@[k])@ == all[k],
            forall|k: int| 0 <= k < i ==> !is_current_line(#[trigger] all[k]),
        decreases lines@.len() - i,
    {
        if line_is_current(lines[i].as_str()) {
            assert(is_current_line(all[i as int]));
            return true;
        }
        i += 1;
    }
    false
}

/// The lines of a new datastore that was made at `created`: comments that
/// describe the format, and an empty line.
pub open spec fn initial_lines(created: Seq<char>) -> Seq<Seq<char>> {
    seq![
        "# DNS Records File - Enhanced UUID Format"@,
        "# ============================================"@,
        "#"@,
        "# Format: id:name:ip:ttl:type:class:value"@,
        "#"@,
        "# Field Descriptions:"@,
        "# - id: UUID v4 identifier for the record (unique)"@,
        "# - name: domain name (e.g., example.com)"@,
        "# - ip: IP address for A records, empty for other types"@,
        "# - ttl: time to live in seconds (e.g., 300)"@,
        "# - type: record type (A, AAAA, CNAME, TXT, MX, NS, PTR, SOA, SRV)"@,
        "# - class: record class (IN, CH, HS - usually IN)"@,
        "# - value: additional value for CNAME, TXT records (optional)"@,
        "#"@,
        "# Examples:"@,
        "# 550e8400-e29b-41d4-a716-446655440000:example.com:93.184.216.34:300:A:IN"@,
        "# 6ba7b810-9dad-11d1-80b4-00c04fd430c8:www.example.com::300:CNAME:IN:example.com"@,
        "# 6ba7b811-9dad-11d1-80b4-00c04fd430c8:example.com::300:TXT:IN:v=spf1 include:_spf.google.com ~all"@,
        "#"@,
        "# Records are kept by the enhanced record management system"@,
        "# Creation time: "@ + created,
        "#"@,
        ""@,
    ]
}

/// The text of a new datastore that was made at `created`.
pub open spec fn initial_text(created: Seq<char>) -> Seq<char> {
    lines_text(initial_lines(created))
}

/// The text of a new, empty datastore that was made at `created`.
pub fn initial_datastore(created: &str) -> (content: String)
    ensures
        content@ == initial_text(created@),
        format_ok(content@),
{
    proof {
        crate::persistence::lemma_initial_datastore_is_current(created@);
    }
    let mut out = String::new();
    let ghost mut lines: Seq<Seq<char>> = Seq::empty();
    push_line(&mut out, "# DNS Records File - Enhanced UUID Format", Ghost(lines));
    proof {
        lines = lines.push("# DNS Records File - Enhanced UUID Format"@);
    }
    push_line(&mut out, "# ============================================", Ghost(lines));
    proof {
        lines = lines.push("# ============================================"@);
    }
    push_line(&mut out, "#", Ghost(lines));
    proof {
        lines = lines.push("#"@);
    }
    push_line(&mut out, "# Format: id:name:ip:ttl:type:class:value", Ghost(lines));
    proof {
        lines = lines.push("# Format: id:name:ip:ttl:type:class:value"@);
    }
    push_line(&mut out, "#", Ghost(lines));
    proof {
        lines = lines.push("#"@);
    }
    push_line(&mut out, "# Field Descriptions:", Ghost(lines));
    proof {
        lines = lines.push("# Field Descriptions:"@);
    }
    push_line(&mut out, "# - id: UUID v4 identifier for the record (unique)", Ghost(lines));
    proof {
        lines = lines.push("# - id: UUID v4 identifier for the record (unique)"@);
    }
    push_line(&mut out, "# - name: domain name (e.g., example.com)", Ghost(lines));
    proof {
        lines = lines.push("# - name: domain name (e.g., example.com)"@);
    }
    push_line(&mut out, "# - ip: IP address for A records, empty for other types", Ghost(lines));
    proof {
        lines = lines.push("# - ip: IP address for A records, empty for other types"@);
    }
    push_line(&mut out, "# - ttl: time to live in seconds (e.g., 300)", Ghost(lines));
    proof {
        lines = lines.push("# - ttl: time to live in seconds (e.g., 300)"@);
    }
    push_line(
        &mut out,
        "# - type: record type (A, AAAA, CNAME, TXT, MX, NS, PTR, SOA, SRV)",
        Ghost(lines),
    );
    proof {
        lines = lines.push("# - type: record type (A, AAAA, CNAME, TXT, MX, NS, PTR, SOA, SRV)"@);
    }
    push_line(&mut out, "# - class: record class (IN, CH, HS - usually IN)", Ghost(lines));
    proof {
        lines = lines.push("# - class: record class (IN, CH, HS - usually IN)"@);
    }
    push_line(
        &mut out,
        "# - value: additional value for CNAME, TXT records (optional)",
        Ghost(lines),
    );
    proof {
        lines = lines.push("# - value: additional value for CNAME, TXT records (optional)"@);
    }
    push_line(&mut out, "#", Ghost(lines));
    proof {
        lines = lines.push("#"@);
    }
    push_line(&mut out, "# Examples:", Ghost(lines));
    proof {
        lines = lines.push("# Examples:"@);
    }
    push_line(
        &mut out,
        "# 550e8400-e29b-41d4-a716-446655440000:example.com:93.184.216.34:300:A:IN",
        Ghost(lines),
    );
    proof {
        lines = lines.push(
            "# 550e8400-e29b-41d4-a716-446655440000:example.com:93.184.216.34:300:A:IN"@,
        );
    }
    push_line(
        &mut out,
        "# 6ba7b810-9dad-11d1-80b4-00c04fd430c8:www.example.com::300:CNAME:IN:example.com",
        Ghost(lines),
    );
    proof {
        lines = lines.push(
            "# 6ba7b810-9dad-11d1-80b4-00c04fd430c8:www.example.com::300:CNAME:IN:example.com"@,
        );
    }
    push_line(
        &mut out,
        "# 6ba7b811-9dad-11d1-80b4-00c04fd430c8:example.com::300:TXT:IN:v=spf1 include:_spf.google.com ~all",
        Ghost(lines),
    );
    proof {
        lines = lines.push(
            "# 6ba7b811-9dad-11d1-80b4-00c04fd430c8:example.com::300:TXT:IN:v=spf1 include:_spf.google.com ~all"@,
        );
    }
    push_line(&mut out, "#", Ghost(lines));
    proof {
        lines = lines.push("#"@);
    }
    push_line(
        &mut out,
        "# Records are kept by the enhanced record management system",
        Ghost(lines),
    );
    proof {
        lines = lines.push("# Records are kept by the enhanced record management system"@);
    }
    let mut stamp = "# Creation time: ".to_string();
    stamp.append(created);
    push_line(&mut out, stamp.as_str(), Ghost(lines));
    proof {
        lines = lines.push("# Creation time: "@ + created@);
    }
    push_line(&mut out, "#", Ghost(lines));
    proof {
        lines = lines.push("#"@);
    }
    push_line(&mut out, "", Ghost(lines));
    proof {
        lines = lines.push(""@);
        assert(lines =~= initial_lines(created@));
    }
    out
}

/// The text of a new, empty datastore, made now.
pub fn initialize_empty_datastore() -> (content: String)
    ensures
        exists|created: Seq<char>| content@ == #[trigger] initial_text(created),
        format_ok(content@),
{
    let created = utc_now_plain();
    let content = initial_datastore(created.as_str());
    assert(content@ == initial_text(created@));
    content
}

/// What to write so that the datastore is there in the current format:
/// nothing where the text that is there is in the current format, else the
/// text of a new, empty datastore, in place of a missing one or of one in
/// an older format.
pub fn ensure_datastore_initialized(existing: Option<&str>) -> (write: Option<String>)
    ensures
        write is None <==> (existing is Some && format_ok(existing->0@)),
        write is Some ==> exists|created: Seq<char>| write->0@ == #[trigger] initial_text(created),
        write is Some ==> format_ok(write->0@),
{
    match existing {
        Some(content) => {
            if validate_datastore_format(content) {
                return None;
            }
        },
        None => {},
    }
    Some(initialize_empty_datastore())
}

} // verus!
