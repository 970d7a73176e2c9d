//! The record store: the records of the zone, kept in listing order.
//!
//! The store is modelled as the sequence of its records, ordered by creation
//! time and then by identifier. A well-formed store holds every identifier
//! once, holds every pair of name and record type once, and holds valid
//! records only.

use crate::record::{valid_record, DnsRecord, RecordView};
use crate::text::{lemma_text_lt_total, lemma_text_lt_transitive, text_before, text_eq, text_lt};
use vstd::prelude::*;

verus! {

// ---------------------------------------------------------------------------
// The model
// ---------------------------------------------------------------------------

/// `a` is listed before `b`: it was created earlier, or at the same instant
/// with the smaller identifier.
pub open spec fn record_before(a: RecordView, b: RecordView) -> bool {
    a.created_at.earlier_than(b.created_at) || (a.created_at == b.created_at && text_lt(a.id, b.id))
}

/// The records stand in listing order.
pub open spec fn sorted(s: Seq<RecordView>) -> bool {
    forall|i: int, j: int| 0 <= i < j < s.len() ==> record_before(#[trigger] s[i], #[trigger] s[j])
}

/// No identifier occurs twice.
pub open spec fn distinct_ids(s: Seq<RecordView>) -> bool {
    forall|i: int, j: int| 0 <= i < j < s.len() ==> (#[trigger] s[i]).id != (#[trigger] s[j]).id
}

/// The two records answer for the same name and record type.
pub open spec fn same_key(a: RecordView, b: RecordView) -> bool {
    a.name == b.name && a.record_type == b.record_type
}

/// No pair of name and record type occurs twice.
pub open spec fn names_unique(s: Seq<RecordView>) -> bool {
    forall|i: int, j: int| 0 <= i < j < s.len() ==> !same_key(#[trigger] s[i], #[trigger] s[j])
}

/// Every record is valid.
pub open spec fn all_valid(s: Seq<RecordView>) -> bool {
    forall|i: int| 0 <= i < s.len() ==> valid_record(#[trigger] s[i])
}

/// No record was updated before it was created.
pub open spec fn times_ordered(s: Seq<RecordView>) -> bool {
    forall|i: int| 0 <= i < s.len() ==> (#[trigger] s[i]).created_at.not_after(s[i].updated_at)
}

/// What holds of the store at every moment.
pub open spec fn well_formed(s: Seq<RecordView>) -> bool {
    &&& sorted(s)
    &&& distinct_ids(s)
    &&& names_unique(s)
    &&& all_valid(s)
    &&& times_ordered(s)
}

/// Position of the record with the identifier, or `s.len()` when there is
/// none.
pub open spec fn index_of_id(s: Seq<RecordView>, id: Seq<char>) -> int
    decreases s.len(),
{
    if s.len() == 0 {
        0
    } else if s[0].id == id {
        0
    } else {
        1 + index_of_id(s.drop_first(), id)
    }
}

/// The store holds a record with the identifier.
pub open spec fn has_id(s: Seq<RecordView>, id: Seq<char>) -> bool {
    index_of_id(s, id) < s.len()
}

/// The record with the identifier.
pub open spec fn lookup(s: Seq<RecordView>, id: Seq<char>) -> Option<RecordView> {
    if has_id(s, id) {
        Some(s[index_of_id(s, id)])
    } else {
        None
    }
}

/// Another record than `r` answers for the name and record type of `r`.
pub open spec fn key_taken(s: Seq<RecordView>, r: RecordView) -> bool {
    exists|i: int| 0 <= i < s.len() && (#[trigger] s[i]).id != r.id && same_key(s[i], r)
}

/// The number of records at the start of `s` that are listed before `r`.
pub open spec fn rank(s: Seq<RecordView>, r: RecordView) -> int
    decreases s.len(),
{
    if s.len() == 0 {
        0
    } else if record_before(s[0], r) {
        1 + rank(s.drop_first(), r)
    } else {
        0
    }
}

/// `s` with `r` at its place in the listing order.
pub open spec fn inserted(s: Seq<RecordView>, r: RecordView) -> Seq<RecordView> {
    s.insert(rank(s, r), r)
}

/// `s` without the record that has the identifier.
pub open spec fn without(s: Seq<RecordView>, id: Seq<char>) -> Seq<RecordView> {
    if has_id(s, id) {
        s.remove(index_of_id(s, id))
    } else {
        s
    }
}

/// `s` with `r` in place of any record with its identifier.
pub open spec fn put(s: Seq<RecordView>, r: RecordView) -> Seq<RecordView> {
    inserted(without(s, r.id), r)
}

// ---------------------------------------------------------------------------
// Lemmas on the model
// ---------------------------------------------------------------------------

/// The position of an identifier lies in the store or at its end; the
/// record there has the identifier, and no record before it has.
pub proof fn lemma_index_of_id(s: Seq<RecordView>, id: Seq<char>)
    ensures
        0 <= index_of_id(s, id) <= s.len(),
        index_of_id(s, id) < s.len() ==> s[index_of_id(s, id)].id == id,
        forall|k: int| 0 <= k < index_of_id(s, id) ==> (#[trigger] s[k]).id != id,
    decreases s.len(),
{
    if s.len() > 0 && s[0].id != id {
        let t = s.drop_first();
        lemma_index_of_id(t, id);
        assert forall|k: int| 0 <= k < index_of_id(s, id) implies (#[trigger] s[k]).id != id by {
            if k > 0 {
                assert(t[k - 1] == s[k]);
            }
        }
    }
}

/// The first `k` records have other identifiers, and either the store ends
/// there or the record there has the identifier: then `k` is its position.
pub proof fn lemma_index_of_id_is(s: Seq<RecordView>, id: Seq<char>, k: int)
    requires
        0 <= k <= s.len(),
        forall|j: int| 0 <= j < k ==> (#[trigger] s[j]).id != id,
        k < s.len() ==> s[k].id == id,
    ensures
        index_of_id(s, id) == k,
    decreases k,
{
    if k > 0 {
        let t = s.drop_first();
        assert forall|j: int| 0 <= j < k - 1 implies (#[trigger] t[j]).id != id by {
            assert(t[j] == s[j + 1]);
        }
        lemma_index_of_id_is(t, id, k - 1);
    }
}

/// The listing order is transitive.
pub proof fn lemma_record_before_transitive(a: RecordView, b: RecordView, c: RecordView)
    requires
        record_before(a, b),
        record_before(b, c),
    ensures
        record_before(a, c),
{
    if a.created_at == b.created_at && b.created_at == c.created_at {
        lemma_text_lt_transitive(a.id, b.id, c.id);
    }
}

/// Of two records with different identifiers one is listed before the other.
pub proof fn lemma_record_before_total(a: RecordView, b: RecordView)
    requires
        a.id != b.id,
    ensures
        record_before(a, b) || record_before(b, a),
{
    lemma_text_lt_total(a.id, b.id);
}

/// In a sorted store without the identifier of `r`, the records before the
/// rank of `r` are listed before `r`, and `r` before the others.
pub proof fn lemma_rank(s: Seq<RecordView>, r: RecordView)
    requires
        sorted(s),
        !has_id(s, r.id),
    ensures
        0 <= rank(s, r) <= s.len(),
        forall|i: int| 0 <= i < rank(s, r) ==> record_before(#[trigger] s[i], r),
        forall|i: int| rank(s, r) <= i < s.len() ==> record_before(r, #[trigger] s[i]),
    decreases s.len(),
{
    lemma_index_of_id(s, r.id);
    if s.len() > 0 {
        let t = s.drop_first();
        assert(s[0].id != r.id);
        if record_before(s[0], r) {
            assert forall|i: int, j: int| 0 <= i < j < t.len() implies record_before(
                #[trigger] t[i],
                #[trigger] t[j],
            ) by {
                assert(t[i] == s[i + 1] && t[j] == s[j + 1]);
            }
            assert forall|k: int| 0 <= k < t.len() implies (#[trigger] t[k]).id != r.id by {
                assert(t[k] == s[k + 1]);
            }
            lemma_index_of_id_is(t, r.id, t.len() as int);
            lemma_rank(t, r);
            assert forall|i: int| 0 <= i < rank(s, r) implies record_before(#[trigger] s[i], r) by {
                if i > 0 {
                    assert(t[i - 1] == s[i]);
                }
            }
            assert forall|i: int| rank(s, r) <= i < s.len() implies record_before(
                r,
                #[trigger] s[i],
            ) by {
                assert(t[i - 1] == s[i]);
            }
        } else {
            lemma_record_before_total(s[0], r);
            assert forall|i: int| 0 <= i < s.len() implies record_before(r, #[trigger] s[i]) by {
                if i > 0 {
                    lemma_record_before_transitive(r, s[0], s[i]);
                }
            }
        }
    }
}

/// Putting a new valid record at its place keeps the store well-formed.
pub proof fn lemma_inserted_well_formed(s: Seq<RecordView>, r: RecordView)
    requires
        well_formed(s),
        !has_id(s, r.id),
        !key_taken(s, r),
        valid_record(r),
        r.created_at.not_after(r.updated_at),
    ensures
        well_formed(inserted(s, r)),
        has_id(inserted(s, r), r.id),
        lookup(inserted(s, r), r.id) == Some(r),
        inserted(s, r).len() == s.len() + 1,
{
    lemma_rank(s, r);
    lemma_index_of_id(s, r.id);
    let p = rank(s, r);
    let t = inserted(s, r);
    assert forall|i: int| 0 <= i < t.len() implies #[trigger] t[i] == (if i < p {
        s[i]
    } else if i == p {
        r
    } else {
        s[i - 1]
    }) by {}
    assert forall|i: int| 0 <= i < s.len() implies !same_key(#[trigger] s[i], r) by {
        assert(s[i].id != r.id);
    }
    assert(sorted(t));
    assert(distinct_ids(t));
    assert(names_unique(t));
    assert(all_valid(t));
    assert(times_ordered(t));
    lemma_index_of_id_is(t, r.id, p);
}

/// Taking a record out keeps the store well-formed.
pub proof fn lemma_removed_well_formed(s: Seq<RecordView>, i: int)
    requires
        well_formed(s),
        0 <= i < s.len(),
    ensures
        well_formed(s.remove(i)),
        !has_id(s.remove(i), s[i].id),
        forall|r: RecordView| key_taken(s.remove(i), r) ==> key_taken(s, r),
{
    let t = s.remove(i);
    assert forall|k: int| 0 <= k < t.len() implies #[trigger] t[k] == (if k < i {
        s[k]
    } else {
        s[k + 1]
    }) by {}
    assert(sorted(t));
    assert(distinct_ids(t));
    assert(names_unique(t));
    assert(all_valid(t));
    assert(times_ordered(t));
    assert forall|k: int| 0 <= k < t.len() implies (#[trigger] t[k]).id != s[i].id by {
        if k < i {
            assert(s[k].id != s[i].id);
        } else {
            assert(s[i].id != s[k + 1].id);
        }
    }
    lemma_index_of_id_is(t, s[i].id, t.len() as int);
    assert forall|r: RecordView| key_taken(t, r) implies key_taken(s, r) by {
        let k = choose|k: int| 0 <= k < t.len() && (#[trigger] t[k]).id != r.id && same_key(t[k], r);
        if k < i {
            assert(s[k].id != r.id && same_key(s[k], r));
        } else {
            assert(s[k + 1].id != r.id && same_key(s[k + 1], r));
        }
    }
}

/// Changing a record in place, but for its identifier and creation time,
/// keeps the store well-formed where the new record is valid and its name
/// and type are free.
pub proof fn lemma_updated_well_formed(s: Seq<RecordView>, i: int, r: RecordView)
    requires
        well_formed(s),
        0 <= i < s.len(),
        r.id == s[i].id,
        r.created_at == s[i].created_at,
        !key_taken(s, r),
        valid_record(r),
        r.created_at.not_after(r.updated_at),
    ensures
        well_formed(s.update(i, r)),
        index_of_id(s.update(i, r), r.id) == i,
        lookup(s.update(i, r), r.id) == Some(r),
{
    let t = s.update(i, r);
    assert forall|k: int| 0 <= k < s.len() && k != i implies !same_key(#[trigger] s[k], r) by {
        if k < i {
            assert(s[k].id != s[i].id);
        } else {
            assert(s[i].id != s[k].id);
        }
    }
    assert(sorted(t));
    assert(distinct_ids(t));
    assert(names_unique(t));
    assert(all_valid(t));
    assert(times_ordered(t));
    assert forall|k: int| 0 <= k < i implies (#[trigger] t[k]).id != r.id by {
        assert(s[k].id != s[i].id);
    }
    lemma_index_of_id_is(t, r.id, i);
}

/// Putting a valid record in place of any record with its identifier
/// keeps the store well-formed where its name and type are free.
pub proof fn lemma_put_well_formed(s: Seq<RecordView>, r: RecordView)
    requires
        well_formed(s),
        !key_taken(s, r),
        valid_record(r),
        r.created_at.not_after(r.updated_at),
    ensures
        well_formed(put(s, r)),
        lookup(put(s, r), r.id) == Some(r),
{
    lemma_index_of_id(s, r.id);
    if has_id(s, r.id) {
        lemma_removed_well_formed(s, index_of_id(s, r.id));
    }
    lemma_inserted_well_formed(without(s, r.id), r);
}

/// In a well-formed store no two records share name and record type.
pub proof fn lemma_well_formed_names(s: Seq<RecordView>, i: int, j: int)
    requires
        well_formed(s),
        0 <= i < s.len(),
        0 <= j < s.len(),
        i != j,
    ensures
        !(s[i].name == s[j].name && s[i].record_type == s[j].record_type),
        s[i].id != s[j].id,
{
    if i < j {
        assert(!same_key(s[i], s[j]));
        assert(s[i].id != s[j].id);
    } else {
        assert(!same_key(s[j], s[i]));
        assert(s[j].id != s[i].id);
    }
}

// ---------------------------------------------------------------------------
// The store
// ---------------------------------------------------------------------------

/// The records of the zone, in listing order.
#[derive(Debug)]
pub struct DnsRecords {
    records: Vec<DnsRecord>,
}

impl View for DnsRecords {
    type V = Seq<RecordView>;

    closed spec fn view(&self) -> Seq<RecordView> {
        Seq::new(self.records@.len(), |i: int| self.records@[i]@)
    }
}

/// Whether `a` is listed before `b`.
pub fn listed_before(a: &DnsRecord, b: &DnsRecord) -> (before: bool)
    ensures
        before == record_before(a@, b@),
{
    if a.created_at.before(&b.created_at) {
        true
    } else if a.created_at == b.created_at {
        text_before(a.id.as_str(), b.id.as_str())
    } else {
        false
    }
}

impl DnsRecords {
    /// The store is sorted, holds each identifier and each pair of name and
    /// type once, and holds valid records only.
    pub open spec fn wf(&self) -> bool {
        well_formed(self@)
    }

    /// The empty store.
    pub fn new() -> (store: DnsRecords)
        ensures
            store@ == Seq::<RecordView>::empty(),
            store.wf(),
    {
        let store = DnsRecords { records: Vec::new() };
        assert(store@ =~= Seq::<RecordView>::empty());
        store
    }

    /// The number of records.
    pub fn len(&self) -> (n: usize)
        ensures
            n == self@.len(),
    {
        self.records.len()
    }

    /// Whether the store holds no record.
    pub fn is_empty(&self) -> (b: bool)
        ensures
            b == (self@.len() == 0),
    {
        self.records.len() == 0
    }

    /// The record at position `i` of the listing.
    pub fn record_at(&self, i: usize) -> (r: &DnsRecord)
        requires
            i < self@.len(),
        ensures
            r@ == self@[i as int],
    {
        &self.records[i]
    }

    /// The position of the record with the identifier.
    pub fn position(&self, id: &str) -> (p: Option<usize>)
        ensures
            match p {
                Some(i) => i < self@.len() && i == index_of_id(self@, id@),
                None => !has_id(self@, id@),
            },
    {
        let mut i: usize = 0;
        while i < self.records.len()
            invariant
                i <= self@.len(),
                self@.len() == self.records@.len(),
                forall|k: int| 0 <= k < i ==> (#[trigger] self@[k]).id != id@,
            decreases self.records@.len() - i,
        {
            if text_eq(self.records[i].id.as_str(), id) {
                proof {
                    assert(self@[i as int].id == id@);
                    lemma_index_of_id_is(self@, id@, i as int);
                }
                return Some(i);
            }
            assert(self@[i as int].id != id@);
            i += 1;
        }
        proof {
            lemma_index_of_id_is(self@, id@, self@.len() as int);
        }
        None
    }

    /// The record with the identifier.
    pub fn get(&self, id: &str) -> (r: Option<&DnsRecord>)
        ensures
            match r {
                Some(record) => lookup(self@, id@) == Some(record@),
                None => lookup(self@, id@) is None,
            },
    {
        match self.position(id) {
            Some(i) => Some(&self.records[i]),
            None => None,
        }
    }

    /// Whether the store holds a record with the identifier.
    pub fn contains_id(&self, id: &str) -> (b: bool)
        ensures
            b == has_id(self@, id@),
    {
        self.position(id).is_some()
    }

    /// Copies of all records, in listing order.
    pub fn values(&self) -> (all: Vec<DnsRecord>)
        ensures
            all@.len() == self@.len(),
            forall|i: int| 0 <= i < all@.len() ==> (#[trigger] all@[i])@ == self@[i],
    {
        let mut all: Vec<DnsRecord> = Vec::new();
        let mut i: usize = 0;
        while i < self.records.len()
            invariant
                i <= self.records@.len(),
                self@.len() == self.records@.len(),
                all@.len() == i,
                forall|k: int| 0 <= k < i ==> (#[trigger] all@[k])@ == self@[k],
            decreases self.records@.len() - i,
        {
            let copy = self.records[i].clone();
            assert(copy@ == self@[i as int]);
            all.push(copy);
            i += 1;
        }
        all
    }

    /// Whether another record than `record` answers for its name and type.
    pub fn key_taken(&self, record: &DnsRecord) -> (b: bool)
        ensures
            b == key_taken(self@, record@),
    {
        let mut i: usize = 0;
        while i < self.records.len()
            invariant
                i <= self.records@.len(),
                self@.len() == self.records@.len(),
                forall|k: int|
                    0 <= k < i ==> !((#[trigger] self@[k]).id != record@.id && same_key(
                        self@[k],
                        record@,
                    )),
            decreases self.records@.len() - i,
        {
            let other = &self.records[i];
            assert(other@ == self@[i as int]);
            if !text_eq(other.id.as_str(), record.id.as_str()) && text_eq(
                other.name.as_str(),
                record.name.as_str(),
            ) && text_eq(other.record_type.as_str(), record.record_type.as_str()) {
                return true;
            }
            i += 1;
        }
        false
    }

    /// Whether the store is well-formed. Every store that the operations of
    /// this library hand out is; this is for callers that cannot know.
    pub fn is_well_formed(&self) -> (ok: bool)
        ensures
            ok == self.wf(),
    {
        let n = self.records.len();
        let mut i: usize = 0;
        while i < n
            invariant
                i <= n,
                n == self.records@.len(),
                self@.len() == n,
                forall|k: int| 0 <= k < i ==> valid_record(#[trigger] self@[k]),
                forall|k: int|
                    0 <= k < i ==> (#[trigger] self@[k]).created_at.not_after(self@[k].updated_at),
                forall|a: int, b: int|
                    0 <= a < b < n && a < i ==> record_before(#[trigger] self@[a], #[trigger] self@[b])
                        && self@[a].id != self@[b].id && !same_key(self@[a], self@[b]),
            decreases n - i,
        {
            let record = &self.records[i];
            assert(record@ == self@[i as int]);
            if record.validate().is_err() {
                assert(!valid_record(self@[i as int]));
                return false;
            }
            if !record.created_at.at_or_before(&record.updated_at) {
                assert(!self@[i as int].created_at.not_after(self@[i as int].updated_at));
                return false;
            }
            let mut j: usize = i + 1;
            while j < n
                invariant
                    i < j <= n,
                    n == self.records@.len(),
                    self@.len() == n,
                    record@ == self@[i as int],
                    forall|b: int|
                        i < b < j ==> record_before(self@[i as int], #[trigger] self@[b])
                            && self@[i as int].id != self@[b].id && !same_key(
                            self@[i as int],
                            self@[b],
                        ),
                decreases n - j,
            {
                let other = &self.records[j];
                assert(other@ == self@[j as int]);
                let same_id = text_eq(record.id.as_str(), other.id.as_str());
                let same_name = text_eq(record.name.as_str(), other.name.as_str()) && text_eq(
                    record.record_type.as_str(),
                    other.record_type.as_str(),
                );
                if !listed_before(record, other) || same_id || same_name {
                    assert(!(record_before(self@[i as int], self@[j as int]) && self@[i as int].id
                        != self@[j as int].id && !same_key(self@[i as int], self@[j as int])));
                    return false;
                }
                j += 1;
            }
            i += 1;
        }
        true
    }

    /// Puts `record` at its place in the listing order.
    pub(crate) fn insert_sorted(&mut self, record: DnsRecord) -> (p: usize)
        ensures
            p == rank(old(self)@, record@),
            p <= old(self)@.len(),
            final(self)@ == inserted(old(self)@, record@),
    {
        let mut i: usize = 0;
        proof {
            assert(self@.skip(0) =~= self@);
        }
        while i < self.records.len() && listed_before(&self.records[i], &record)
            invariant
                i <= self.records@.len(),
                self@.len() == self.records@.len(),
                *self == *old(self),
                rank(self@, record@) == i + rank(self@.skip(i as int), record@),
            decreases self.records@.len() - i,
        {
            proof {
                assert(self@.skip(i as int)[0] == self@[i as int]);
                assert(self@.skip(i as int).drop_first() =~= self@.skip(i + 1));
            }
            i += 1;
        }
        proof {
            if i < self.records.len() {
                assert(self@.skip(i as int)[0] == self@[i as int]);
            }
        }
        self.records.insert(i, record);
        assert(self@ =~= old(self)@.insert(i as int, record@));
        i
    }

    /// Puts `record` at position `i`.
    pub(crate) fn insert_at(&mut self, i: usize, record: DnsRecord)
        requires
            i <= old(self)@.len(),
        ensures
            final(self)@ == old(self)@.insert(i as int, record@),
    {
        self.records.insert(i, record);
        assert(self@ =~= old(self)@.insert(i as int, record@));
    }

    /// Takes the record at position `i` out.
    pub(crate) fn remove_at(&mut self, i: usize) -> (record: DnsRecord)
        requires
            i < old(self)@.len(),
        ensures
            record@ == old(self)@[i as int],
            final(self)@ == old(self)@.remove(i as int),
    {
        let record = self.records.remove(i);
        assert(self@ =~= old(self)@.remove(i as int));
        record
    }

    /// Puts `record` in place of the record at position `i`, which is
    /// handed back.
    pub(crate) fn replace_at(&mut self, i: usize, record: DnsRecord) -> (previous: DnsRecord)
        requires
            i < old(self)@.len(),
        ensures
            previous@ == old(self)@[i as int],
            final(self)@ == old(self)@.update(i as int, record@),
    {
        let previous = self.records.remove(i);
        self.records.insert(i, record);
        assert(self@ =~= old(self)@.update(i as int, record@));
        previous
    }

    /// Puts `record` in place of any record with its identifier, at its
    /// place in the listing order. Hands back the position of the record,
    /// and the position and value of the record that it replaced.
    pub(crate) fn put_at_place(&mut self, record: DnsRecord) -> (placed: (
        usize,
        Option<(usize, DnsRecord)>,
    ))
        requires
            old(self).wf(),
            valid_record(record@),
            !key_taken(old(self)@, record@),
            record@.created_at.not_after(record@.updated_at),
        ensures
            final(self).wf(),
            final(self)@ == put(old(self)@, record@),
            lookup(final(self)@, record@.id) == Some(record@),
            placed.0 < final(self)@.len(),
            final(self)@[placed.0 as int] == record@,
            match placed.1 {
                Some((i, previous)) => {
                    &&& has_id(old(self)@, record@.id)
                    &&& i == index_of_id(old(self)@, record@.id)
                    &&& i < final(self)@.len()
                    &&& final(self)@.len() == old(self)@.len()
                    &&& previous@ == old(self)@[i as int]
                    &&& old(self)@ == final(self)@.remove(placed.0 as int).insert(
                        i as int,
                        previous@,
                    )
                },
                None => {
                    &&& !has_id(old(self)@, record@.id)
                    &&& old(self)@ == final(self)@.remove(placed.0 as int)
                },
            },
    {
        let ghost before = self@;
        let ghost r = record@;
        let replaced = match self.position(record.id.as_str()) {
            Some(i) => {
                proof {
                    lemma_removed_well_formed(before, i as int);
                    lemma_index_of_id(before, r.id);
                }
                let previous = self.remove_at(i);
                Some((i, previous))
            },
            None => None,
        };
        let ghost middle = self@;
        proof {
            assert(middle == without(before, r.id));
            lemma_inserted_well_formed(middle, r);
            lemma_rank(middle, r);
        }
        let p = self.insert_sorted(record);
        proof {
            assert(self@.remove(p as int) =~= middle);
            if replaced is Some {
                let pair = replaced->0;
                let i = pair.0;
                let previous = pair.1;
                assert(middle.insert(i as int, previous@) =~= before);
            }
        }
        (p, replaced)
    }
}

} // verus!
