//! The two halves of a mutation: the change is staged in the store, the
//! store is handed to the datastore provider, and the change is settled by
//! what the provider said: kept where the write succeeded, taken back where
//! it failed.

use crate::addr::Ipv4Addr;
use crate::clock::Timestamp;
use crate::record::{text_of, validate_spec, DnsRecord, RecordError, RecordErrorView, RecordView};
use crate::store::{
    has_id, index_of_id, inserted, key_taken, lemma_index_of_id, lemma_inserted_well_formed,
    lemma_removed_well_formed, lemma_updated_well_formed, lookup, put, well_formed, DnsRecords,
};
use crate::update::{
    apply_patch, create_check, draft, duplicate, not_found, not_found_text, update_check,
    upsert_check, UpdateRecordRequest,
};
use vstd::prelude::*;

verus! {

/// How a staged change is taken back.
#[derive(Debug)]
pub enum Undo {
    /// Take out the record at the position.
    Remove(usize),
    /// Put the record back in at the position.
    Insert(usize, DnsRecord),
    /// Put the record in place of the one at the position.
    Replace(usize, DnsRecord),
    /// Take out the record at the first position, then put the record back
    /// in at the second.
    RemoveThenInsert(usize, usize, DnsRecord),
}

/// What an `Undo` holds, as mathematical values.
pub enum UndoView {
    Remove(int),
    Insert(int, RecordView),
    Replace(int, RecordView),
    RemoveThenInsert(int, int, RecordView),
}

impl View for Undo {
    type V = UndoView;

    open spec fn view(&self) -> UndoView {
        match self {
            Undo::Remove(p) => UndoView::Remove(*p as int),
            Undo::Insert(i, r) => UndoView::Insert(*i as int, r@),
            Undo::Replace(i, r) => UndoView::Replace(*i as int, r@),
            Undo::RemoveThenInsert(p, i, r) => UndoView::RemoveThenInsert(*p as int, *i as int, r@),
        }
    }
}

/// The positions of the undo lie in the store.
pub open spec fn undo_fits(s: Seq<RecordView>, undo: UndoView) -> bool {
    match undo {
        UndoView::Remove(p) => 0 <= p < s.len(),
        UndoView::Insert(i, _) => 0 <= i <= s.len(),
        UndoView::Replace(i, _) => 0 <= i < s.len(),
        UndoView::RemoveThenInsert(p, i, _) => 0 <= p < s.len() && 0 <= i < s.len(),
    }
}

/// The store after the change was taken back.
pub open spec fn undone(s: Seq<RecordView>, undo: UndoView) -> Seq<RecordView> {
    match undo {
        UndoView::Remove(p) => s.remove(p),
        UndoView::Insert(i, r) => s.insert(i, r),
        UndoView::Replace(i, r) => s.update(i, r),
        UndoView::RemoveThenInsert(p, i, r) => s.remove(p).insert(i, r),
    }
}

/// Stages the creation of the record with the given identifier and creation
/// time: where `create_check` passes, the record is put at its place.
pub fn stage_create(
    records: &mut DnsRecords,
    id: String,
    now: Timestamp,
    name: String,
    ip: Option<Ipv4Addr>,
    ttl: u32,
    record_type: String,
    class: String,
    value: Option<String>,
) -> (res: Result<(DnsRecord, Undo), RecordError>)
    requires
        old(records).wf(),
    ensures
        final(records).wf(),
        match res {
            Ok((record, undo)) => {
                &&& record@ == draft(id@, now, name@, ip, ttl, record_type@, class@, text_of(value))
                &&& create_check(old(records)@, record@) is Ok
                &&& final(records)@ == inserted(old(records)@, record@)
                &&& lookup(final(records)@, record@.id) == Some(record@)
                &&& undo_fits(final(records)@, undo@)
                &&& undone(final(records)@, undo@) == old(records)@
            },
            Err(e) => {
                &&& final(records)@ == old(records)@
                &&& create_check(
                    old(records)@,
                    draft(id@, now, name@, ip, ttl, record_type@, class@, text_of(value)),
                ) == Err::<(), RecordErrorView>(e@)
            },
        },
{
    let record = DnsRecord::new_at(id, now, name, ip, ttl, record_type, class, value);
    if let Err(e) = record.validate() {
        return Err(RecordError::ValidationError(e));
    }
    if records.contains_id(record.id.as_str()) || records.key_taken(&record) {
        return Err(duplicate(record.name.as_str(), record.record_type.as_str()));
    }
    let copy = record.clone();
    proof {
        lemma_inserted_well_formed(records@, record@);
    }
    let place = records.insert_sorted(record);
    assert(records@.remove(place as int) =~= old(records)@);
    Ok((copy, Undo::Remove(place)))
}

/// Stages the update of the record with the identifier as the patch asks,
/// at `now`: where `update_check` passes, the updated record takes the
/// place of the record.
pub fn stage_update(records: &mut DnsRecords, id: &str, patch: UpdateRecordRequest, now: Timestamp) -> (res:
    Result<(DnsRecord, Undo), RecordError>)
    requires
        old(records).wf(),
    ensures
        final(records).wf(),
        match res {
            Ok((record, undo)) => {
                &&& update_check(old(records)@, id@, patch@, now) == Ok::<
                    RecordView,
                    RecordErrorView,
                >(record@)
                &&& final(records)@ == old(records)@.update(
                    index_of_id(old(records)@, id@),
                    record@,
                )
                &&& lookup(final(records)@, id@) == Some(record@)
                &&& undo_fits(final(records)@, undo@)
                &&& undone(final(records)@, undo@) == old(records)@
            },
            Err(e) => {
                &&& final(records)@ == old(records)@
                &&& update_check(old(records)@, id@, patch@, now) == Err::<
                    RecordView,
                    RecordErrorView,
                >(e@)
            },
        },
{
    let place = match records.position(id) {
        Some(i) => i,
        None => {
            return Err(not_found(id));
        },
    };
    proof {
        lemma_index_of_id(records@, id@);
    }
    let mut record = match apply_patch(records.record_at(place), patch) {
        Ok(r) => r,
        Err(e) => {
            return Err(RecordError::ValidationError(e));
        },
    };
    if let Err(e) = record.validate() {
        return Err(RecordError::ValidationError(e));
    }
    if records.key_taken(&record) {
        return Err(duplicate(record.name.as_str(), record.record_type.as_str()));
    }
    let ghost checked = record@;
    record.touch_at(now);
    proof {
        assert(validate_spec(record@) == validate_spec(checked));
        assert(key_taken(records@, record@) == key_taken(records@, checked));
        lemma_updated_well_formed(records@, place as int, record@);
    }
    let copy = record.clone();
    let previous = records.replace_at(place, record);
    assert(records@.update(place as int, previous@) =~= old(records)@);
    Ok((copy, Undo::Replace(place, previous)))
}

/// Stages the deletion of the record with the identifier: where the store
/// holds it, it is taken out.
pub fn stage_delete(records: &mut DnsRecords, id: &str) -> (res: Result<Undo, RecordError>)
    requires
        old(records).wf(),
    ensures
        final(records).wf(),
        match res {
            Ok(undo) => {
                &&& has_id(old(records)@, id@)
                &&& final(records)@ == old(records)@.remove(index_of_id(old(records)@, id@))
                &&& lookup(final(records)@, id@) is None
                &&& undo_fits(final(records)@, undo@)
                &&& undone(final(records)@, undo@) == old(records)@
            },
            Err(e) => {
                &&& final(records)@ == old(records)@
                &&& !has_id(old(records)@, id@)
                &&& e@ == RecordErrorView::NotFound(not_found_text(id@))
            },
        },
{
    let place = match records.position(id) {
        Some(i) => i,
        None => {
            return Err(not_found(id));
        },
    };
    proof {
        lemma_index_of_id(records@, id@);
        lemma_removed_well_formed(records@, place as int);
    }
    let removed = records.remove_at(place);
    assert(records@.insert(place as int, removed@) =~= old(records)@);
    Ok(Undo::Insert(place, removed))
}

/// Stages the create-or-replace of the record, at `now`: where
/// `upsert_check` passes, the touched record takes the place of any record
/// with its identifier.
pub fn stage_upsert(records: &mut DnsRecords, new_record: DnsRecord, now: Timestamp) -> (res: Result<
    (DnsRecord, Undo),
    RecordError,
>)
    requires
        old(records).wf(),
    ensures
        final(records).wf(),
        match res {
            Ok((record, undo)) => {
                &&& upsert_check(old(records)@, new_record@, now) == Ok::<
                    RecordView,
                    RecordErrorView,
                >(record@)
                &&& final(records)@ == put(old(records)@, record@)
                &&& lookup(final(records)@, record@.id) == Some(record@)
                &&& undo_fits(final(records)@, undo@)
                &&& undone(final(records)@, undo@) == old(records)@
            },
            Err(e) => {
                &&& final(records)@ == old(records)@
                &&& upsert_check(old(records)@, new_record@, now) == Err::<
                    RecordView,
                    RecordErrorView,
                >(e@)
            },
        },
{
    let mut record = new_record;
    if let Err(e) = record.validate() {
        return Err(RecordError::ValidationError(e));
    }
    if records.key_taken(&record) {
        return Err(duplicate(record.name.as_str(), record.record_type.as_str()));
    }
    let ghost checked = record@;
    record.touch_at(now);
    proof {
        assert(validate_spec(record@) == validate_spec(checked));
        assert(key_taken(records@, record@) == key_taken(records@, checked));
    }
    let copy = record.clone();
    let (place, replaced) = records.put_at_place(record);
    let undo = match replaced {
        Some((i, previous)) => Undo::RemoveThenInsert(place, i, previous),
        None => Undo::Remove(place),
    };
    Ok((copy, undo))
}

/// Settles a staged change by what the provider said of the write: where
/// it succeeded the change stays and `value` is the result; where it failed
/// the change is taken back and the result is the provider's failure as an
/// `IoError`.
pub fn settle<T>(records: &mut DnsRecords, undo: Undo, saved: Result<(), String>, value: T) -> (res:
    Result<T, RecordError>)
    requires
        undo_fits(old(records)@, undo@),
        well_formed(undone(old(records)@, undo@)),
        old(records).wf(),
    ensures
        final(records).wf(),
        match saved {
            Ok(_) => {
                &&& final(records)@ == old(records)@
                &&& res is Ok
                &&& res->Ok_0 == value
            },
            Err(detail) => {
                &&& final(records)@ == undone(old(records)@, undo@)
                &&& res is Err
                &&& res->Err_0@ == RecordErrorView::IoError(detail@)
            },
        },
{
    match saved {
        Ok(_) => Ok(value),
        Err(detail) => {
            match undo {
                Undo::Remove(place) => {
                    let _ = records.remove_at(place);
                },
                Undo::Insert(place, record) => {
                    records.insert_at(place, record);
                },
                Undo::Replace(place, record) => {
                    let _ = records.replace_at(place, record);
                },
                Undo::RemoveThenInsert(place, back, record) => {
                    let _ = records.remove_at(place);
                    records.insert_at(back, record);
                },
            }
            Err(RecordError::IoError(detail))
        },
    }
}

} // verus!
