//! What is saved can be loaded: the text of a store reads back as the store.

use crate::addr::{lemma_ipv4_round_trip, parse_ipv4_spec};
use crate::clock::Timestamp;
use crate::datastore::{
    format_marker, format_ok, initial_lines, initial_text, is_current_line, acceptable, fields_record, ip_field, is_comment, line_record, lines_text, load_lines, load_spec,
    record_fields, record_line, record_lines, render, saved_header,
};
use crate::ident::{is_hex_digit, is_hyphenated_uuid, is_record_id};
use crate::record::{
    is_class, is_record_type, name_char, name_chars, valid_record, validate_spec, RecordView,
};
use crate::store::{
    distinct_ids, has_id, index_of_id, lemma_index_of_id, lemma_index_of_id_is,
    lemma_inserted_well_formed, lemma_rank, lookup, put, rank, same_key, well_formed, without,
};
use crate::text::{
    found_at, decimal_text, free_of, is_digit, is_space, join, lemma_decimal_round_trip, lemma_first_index_is,
    lemma_join_first, lemma_join_free_of, lemma_join_push, lemma_parse_u32_of_text,
    lemma_split_join, lemma_trim_nothing, split, trim,
};
use vstd::prelude::*;

verus! {

/// A value that a line can carry: it holds no colon and no line feed and
/// does not end in white space.
pub open spec fn plain_value(value: Option<Seq<char>>) -> bool {
    match value {
        None => true,
        Some(v) => free_of(v, ':') && free_of(v, '\n') && (v.len() > 0 ==> !is_space(v.last())),
    }
}

/// A record that a line can carry: its identifier is a hyphenated UUID and
/// its value is plain.
pub open spec fn storable_record(r: RecordView) -> bool {
    is_hyphenated_uuid(r.id) && plain_value(r.value)
}

/// A store whose records can all be carried by lines.
pub open spec fn storable(s: Seq<RecordView>) -> bool {
    forall|i: int| 0 <= i < s.len() ==> storable_record(#[trigger] s[i])
}

/// The record as it is after a load at `now`: both timestamps are `now`.
pub open spec fn reloaded(r: RecordView, now: Timestamp) -> RecordView {
    RecordView { created_at: now, updated_at: now, ..r }
}

/// A text that holds no colon and no line feed.
pub open spec fn is_field(s: Seq<char>) -> bool {
    free_of(s, ':') && free_of(s, '\n')
}

/// An identifier is a field, and starts with neither `#` nor white space.
proof fn lemma_id_is_field(id: Seq<char>)
    requires
        is_hyphenated_uuid(id),
    ensures
        is_field(id),
        id.len() == 36,
        id[0] != '#',
        !is_space(id[0]),
{
    assert forall|i: int| 0 <= i < id.len() implies id[i] != ':' && id[i] != '\n' by {
        if i == 8 || i == 13 || i == 18 || i == 23 {
            assert(id[i] == '-');
        } else {
            assert(is_hex_digit(id[i]));
        }
    }
    assert(is_hex_digit(id[0]));
}

/// A name of name characters is a field.
proof fn lemma_name_is_field(name: Seq<char>)
    requires
        name_chars(name),
    ensures
        is_field(name),
{
    assert forall|i: int| 0 <= i < name.len() implies name[i] != ':' && name[i] != '\n' by {
        assert(name_char(name[i]));
    }
}

/// A number in decimal is a field, and holds no dot.
proof fn lemma_digits_are_field(n: int)
    requires
        0 <= n,
    ensures
        is_field(decimal_text(n)),
        free_of(decimal_text(n), '.'),
{
    lemma_decimal_round_trip(n);
    let t = decimal_text(n);
    assert forall|i: int| 0 <= i < t.len() implies t[i] != ':' && t[i] != '\n' && t[i] != '.' by {
        assert(is_digit(t[i]));
    }
}

/// A record type is a field, and does not end in white space.
proof fn lemma_type_is_field(t: Seq<char>)
    requires
        is_record_type(t),
    ensures
        is_field(t),
        t.len() > 0,
        !is_space(t.last()),
{
    reveal_strlit("A");
    reveal_strlit("AAAA");
    reveal_strlit("CNAME");
    reveal_strlit("TXT");
    reveal_strlit("MX");
    reveal_strlit("NS");
    reveal_strlit("PTR");
    reveal_strlit("SOA");
    reveal_strlit("SRV");
}

/// A class is a field, and does not end in white space.
proof fn lemma_class_is_field(c: Seq<char>)
    requires
        is_class(c),
    ensures
        is_field(c),
        c.len() > 0,
        !is_space(c.last()),
{
    reveal_strlit("IN");
    reveal_strlit("CH");
    reveal_strlit("HS");
}

/// The address field is a field, and reads back as the address.
proof fn lemma_ip_is_field(ip: Option<crate::addr::Ipv4Addr>)
    ensures
        is_field(ip_field(ip)),
        parse_ipv4_spec(ip_field(ip)) == ip,
{
    match ip {
        Some(a) => {
            let parts = seq![
                decimal_text(a.a as int),
                decimal_text(a.b as int),
                decimal_text(a.c as int),
                decimal_text(a.d as int),
            ];
            lemma_digits_are_field(a.a as int);
            lemma_digits_are_field(a.b as int);
            lemma_digits_are_field(a.c as int);
            lemma_digits_are_field(a.d as int);
            lemma_join_free_of(parts, '.', ':');
            lemma_join_free_of(parts, '.', '\n');
            lemma_ipv4_round_trip(a);
        },
        None => {
            let empty = Seq::<char>::empty();
            lemma_first_index_is(empty, '.', 0);
            assert(split(empty, '.') =~= seq![empty]);
        },
    }
}

/// The line of a valid, storable record holds no line feed and reads back
/// as the record, with both timestamps at the instant of the load.
pub proof fn lemma_line_reads_back(r: RecordView, fresh_id: Seq<char>, now: Timestamp)
    requires
        valid_record(r),
        storable_record(r),
    ensures
        free_of(record_line(r), '\n'),
        line_record(record_line(r), fresh_id, now) == Some(reloaded(r, now)),
{
    let fields = record_fields(r);
    let line = record_line(r);
    let fixed = seq![
        r.id,
        r.name,
        ip_field(r.ip),
        decimal_text(r.ttl as int),
        r.record_type,
        r.class,
    ];
    lemma_id_is_field(r.id);
    lemma_name_is_field(r.name);
    lemma_ip_is_field(r.ip);
    lemma_digits_are_field(r.ttl as int);
    lemma_type_is_field(r.record_type);
    lemma_class_is_field(r.class);
    assert forall|i: int| 0 <= i < fields.len() implies free_of(#[trigger] fields[i], ':')
        && free_of(fields[i], '\n') by {
        if i < 6 {
            assert(fields[i] == fixed[i]);
        }
    }
    lemma_join_free_of(fields, ':', '\n');
    lemma_split_join(fields, ':');
    lemma_join_first(fields, ':');
    assert(line[0] == r.id[0]);
    // the line does not end in white space
    let front = seq![r.id, r.name, ip_field(r.ip), decimal_text(r.ttl as int), r.record_type];
    assert(front.push(r.class) =~= fixed);
    lemma_join_push(front, r.class, ':');
    match r.value {
        Some(v) => {
            lemma_join_push(fixed, v, ':');
            assert(line == join(fixed, ':') + seq![':'] + v);
            if v.len() > 0 {
                assert(line.last() == v.last());
            } else {
                assert(line.last() == ':');
            }
        },
        None => {
            assert(line == join(front, ':') + seq![':'] + r.class);
            assert(line.last() == r.class.last());
        },
    }
    lemma_trim_nothing(line);
    lemma_parse_u32_of_text(r.ttl);
    assert(is_record_id(r.id));
    assert(fields_record(fields, fresh_id, now) == Some(reloaded(r, now)));
}

/// The store as it is after its records were put, one after the other, into
/// an empty store at `now`.
pub open spec fn reload(s: Seq<RecordView>, now: Timestamp) -> Seq<RecordView>
    decreases s.len(),
{
    if s.len() == 0 {
        Seq::empty()
    } else {
        put(reload(s.drop_last(), now), reloaded(s.last(), now))
    }
}

/// The start of a well-formed store is well-formed.
proof fn lemma_prefix_well_formed(s: Seq<RecordView>)
    requires
        well_formed(s),
        s.len() > 0,
    ensures
        well_formed(s.drop_last()),
{
    let t = s.drop_last();
    assert forall|i: int| 0 <= i < t.len() implies #[trigger] t[i] == s[i] by {}
}

/// A record that stands in a store of distinct identifiers is the one that
/// is found under its identifier.
pub proof fn lemma_found_by_id(t: Seq<RecordView>, x: RecordView)
    requires
        distinct_ids(t),
        t.contains(x),
    ensures
        lookup(t, x.id) == Some(x),
{
    let k = choose|k: int| 0 <= k < t.len() && t[k] == x;
    lemma_index_of_id(t, x.id);
    let j = index_of_id(t, x.id);
    if j < k {
        assert(t[j].id != t[k].id);
    }
}

/// The records of a reloaded store are those of the store, each with both
/// timestamps at the instant of the load; and each record could be taken
/// when its turn came.
proof fn lemma_reload(s: Seq<RecordView>, now: Timestamp)
    requires
        well_formed(s),
    ensures
        well_formed(reload(s, now)),
        reload(s, now).len() == s.len(),
        forall|i: int| 0 <= i < s.len() ==> reload(s, now).contains(reloaded(#[trigger] s[i], now)),
        forall|j: int|
            0 <= j < reload(s, now).len() ==> exists|i: int|
                0 <= i < s.len() && #[trigger] reload(s, now)[j] == reloaded(#[trigger] s[i], now),
        s.len() > 0 ==> acceptable(reload(s.drop_last(), now), reloaded(s.last(), now)),
    decreases s.len(),
{
    if s.len() > 0 {
        let init = s.drop_last();
        let last = s.last();
        let r = reloaded(last, now);
        lemma_prefix_well_formed(s);
        lemma_reload(init, now);
        let before = reload(init, now);
        assert forall|j: int| 0 <= j < before.len() implies (#[trigger] before[j]).id != r.id
            && !same_key(before[j], r) by {
            let i = choose|i: int| 0 <= i < init.len() && before[j] == reloaded(init[i], now);
            assert(init[i] == s[i]);
            assert(s[i].id != s[s.len() - 1].id);
            assert(!same_key(s[i], s[s.len() - 1]));
        }
        lemma_index_of_id_is(before, r.id, before.len() as int);
        assert(!has_id(before, r.id));
        assert(without(before, r.id) == before);
        assert(valid_record(s[s.len() - 1]));
        assert(validate_spec(r) == validate_spec(last));
        lemma_inserted_well_formed(before, r);
        lemma_rank(before, r);
        let p = rank(before, r);
        let after = reload(s, now);
        assert(after == before.insert(p, r));
        assert(after[p] == r);
        assert forall|i: int| 0 <= i < s.len() implies after.contains(
            reloaded(#[trigger] s[i], now),
        ) by {
            if i < init.len() {
                assert(init[i] == s[i]);
                let x = reloaded(init[i], now);
                assert(before.contains(x));
                let k = choose|k: int| 0 <= k < before.len() && before[k] == x;
                if k < p {
                    assert(after[k] == x);
                } else {
                    assert(after[k + 1] == x);
                }
            } else {
                assert(after[p] == reloaded(s[i], now));
            }
        }
        assert forall|j: int| 0 <= j < after.len() implies exists|i: int|
            0 <= i < s.len() && #[trigger] after[j] == reloaded(#[trigger] s[i], now) by {
            if j == p {
                assert(after[j] == reloaded(s[s.len() - 1], now));
            } else {
                let k = if j < p {
                    j
                } else {
                    j - 1
                };
                assert(after[j] == before[k]);
                let i = choose|i: int| 0 <= i < init.len() && before[k] == reloaded(init[i], now);
                assert(init[i] == s[i]);
                assert(after[j] == reloaded(s[i], now));
            }
        }
    }
}

/// The lines, each followed by a line feed, are the lines and an empty
/// line with line feeds between them.
proof fn lemma_lines_text_is_join(lines: Seq<Seq<char>>)
    ensures
        lines_text(lines) == join(lines.push(Seq::empty()), '\n'),
    decreases lines.len(),
{
    let empty = Seq::<char>::empty();
    if lines.len() == 0 {
        assert(lines.push(empty) =~= seq![empty]);
        assert(join(lines.push(empty), '\n') =~= lines_text(lines));
    } else {
        let init = lines.drop_last();
        let last = lines.last();
        lemma_lines_text_is_join(init);
        lemma_join_push(lines, empty, '\n');
        assert(init.push(last) =~= lines);
        if init.len() == 0 {
            assert(lines =~= seq![last]);
            assert(init.push(empty) =~= seq![empty]);
            assert(lines_text(lines) =~= join(lines.push(empty), '\n'));
        } else {
            lemma_join_push(init, last, '\n');
            lemma_join_push(init, empty, '\n');
            assert(lines_text(lines) =~= join(lines.push(empty), '\n'));
        }
    }
}

/// The lines of the header hold no line feed and write no record.
proof fn lemma_header_lines()
    ensures
        saved_header().len() == 9,
        forall|i: int|
            0 <= i < 9 ==> free_of(#[trigger] saved_header()[i], '\n') && is_comment(
                trim(saved_header()[i]),
            ),
{
    reveal_strlit("# DNS Records File - Format: id:name:ip:ttl:type:class:value");
    reveal_strlit("# id: UUID identifier for the record");
    reveal_strlit("# name: domain name");
    reveal_strlit("# ip: IP address (for A records) or empty for other types");
    reveal_strlit("# ttl: time to live in seconds");
    reveal_strlit("# type: record type (A, CNAME, TXT, etc.)");
    reveal_strlit("# class: record class (usually IN)");
    reveal_strlit("# value: additional value for CNAME, TXT records (optional)");
    reveal_strlit("");
    let h = saved_header();
    assert forall|i: int| 0 <= i < 9 implies free_of(#[trigger] h[i], '\n') && is_comment(
        trim(h[i]),
    ) by {
        lemma_trim_nothing(h[i]);
    }
}

/// Lines that write no record load as the empty store.
proof fn lemma_comments_load_nothing(lines: Seq<Seq<char>>, ids: Seq<Seq<char>>, now: Timestamp)
    requires
        forall|i: int| 0 <= i < lines.len() ==> is_comment(trim(#[trigger] lines[i])),
    ensures
        load_lines(lines, ids, now) == Seq::<RecordView>::empty(),
    decreases lines.len(),
{
    if lines.len() > 0 {
        let init = lines.drop_last();
        assert forall|i: int| 0 <= i < init.len() implies is_comment(trim(#[trigger] init[i])) by {
            assert(init[i] == lines[i]);
        }
        lemma_comments_load_nothing(init, ids.drop_last(), now);
        assert(is_comment(trim(lines[lines.len() - 1])));
    }
}

/// The header and the lines of a store load as the reloaded store.
proof fn lemma_lines_load_back(s: Seq<RecordView>, ids: Seq<Seq<char>>, now: Timestamp)
    requires
        well_formed(s),
        storable(s),
    ensures
        load_lines(saved_header() + record_lines(s), ids, now) == reload(s, now),
    decreases s.len(),
{
    let lines = saved_header() + record_lines(s);
    lemma_header_lines();
    if s.len() == 0 {
        assert(lines =~= saved_header());
        lemma_comments_load_nothing(lines, ids, now);
    } else {
        let init = s.drop_last();
        lemma_prefix_well_formed(s);
        assert forall|i: int| 0 <= i < init.len() implies storable_record(#[trigger] init[i]) by {
            assert(init[i] == s[i]);
        }
        lemma_lines_load_back(init, ids.drop_last(), now);
        assert(lines.drop_last() =~= saved_header() + record_lines(init));
        assert(lines.last() == record_line(s.last()));
        assert(valid_record(s[s.len() - 1]));
        assert(storable_record(s[s.len() - 1]));
        lemma_line_reads_back(s.last(), ids.last(), now);
        lemma_reload(s, now);
    }
}

/// What is saved loads back: the text of a well-formed store whose records
/// lines can carry reads, at any instant and whatever fresh identifiers are
/// at hand, as a well-formed store of as many records, in which every
/// record of the store is found under its identifier, unchanged but for its
/// two timestamps, which are the instant of the load.
pub proof fn lemma_saved_store_loads_back(s: Seq<RecordView>, ids: Seq<Seq<char>>, now: Timestamp)
    requires
        well_formed(s),
        storable(s),
    ensures
        well_formed(load_spec(render(s), ids, now)),
        load_spec(render(s), ids, now).len() == s.len(),
        forall|i: int|
            0 <= i < s.len() ==> lookup(load_spec(render(s), ids, now), (#[trigger] s[i]).id) == Some(
                reloaded(s[i], now),
            ),
        forall|id: Seq<char>|
            has_id(load_spec(render(s), ids, now), id) ==> #[trigger] has_id(s, id),
{
    let empty = Seq::<char>::empty();
    let lines = saved_header() + record_lines(s);
    let all = lines.push(empty);
    lemma_header_lines();
    lemma_lines_text_is_join(lines);
    assert forall|i: int| 0 <= i < all.len() implies free_of(#[trigger] all[i], '\n') by {
        if i < 9 {
            assert(all[i] == saved_header()[i]);
        } else if i < lines.len() {
            assert(all[i] == record_line(s[i - 9]));
            assert(valid_record(s[i - 9]));
            assert(storable_record(s[i - 9]));
            lemma_line_reads_back(s[i - 9], empty, now);
        }
    }
    lemma_split_join(all, '\n');
    assert(split(render(s), '\n') == all);
    assert(all.drop_last() =~= lines);
    assert(all.last() == empty);
    lemma_trim_nothing(empty);
    lemma_lines_load_back(s, ids.drop_last(), now);
    let t = load_spec(render(s), ids, now);
    assert(t == reload(s, now));
    lemma_reload(s, now);
    assert forall|i: int| 0 <= i < s.len() implies lookup(t, (#[trigger] s[i]).id) == Some(
        reloaded(s[i], now),
    ) by {
        lemma_found_by_id(t, reloaded(s[i], now));
    }
    assert forall|id: Seq<char>| has_id(t, id) implies #[trigger] has_id(s, id) by {
        lemma_index_of_id(t, id);
        let j = index_of_id(t, id);
        let i = choose|i: int| 0 <= i < s.len() && t[j] == reloaded(s[i], now);
        lemma_index_of_id(s, id);
        if !has_id(s, id) {
            assert(s[i].id != id);
        }
    }
}

/// A new datastore is in the current format: its first line shows it.
pub proof fn lemma_initial_datastore_is_current(created: Seq<char>)
    ensures
        format_ok(initial_text(created)),
{
    let lines = initial_lines(created);
    let first = lines[0];
    let text = initial_text(created);
    reveal_strlit("# DNS Records File - Enhanced UUID Format");
    reveal_strlit("DNS Records File - Enhanced UUID Format");
    lemma_lines_text_is_join(lines);
    let all = lines.push(Seq::empty());
    assert(all[0] == first);
    assert(text == first + seq!['\n'] + join(all.drop_first(), '\n'));
    assert forall|j: int| 0 <= j < first.len() implies text[j] != '\n' by {
        assert(text[j] == first[j]);
    }
    assert(text[first.len() as int] == '\n');
    lemma_first_index_is(text, '\n', first.len() as int);
    assert(text.take(first.len() as int) =~= first);
    assert(split(text, '\n')[0] == first);
    lemma_trim_nothing(first);
    assert(first.subrange(2, 2 + format_marker().len() as int) =~= format_marker());
    assert(found_at(first, format_marker(), 2));
    assert(is_current_line(split(text, '\n')[0]));
}

} // verus!
