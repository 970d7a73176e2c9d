//! Laws of the record store, stated over its model: what a reader finds
//! after a mutation, and what every mutation keeps.

use crate::clock::Timestamp;
use crate::record::{touched, validate_spec, RecordView};
use crate::store::{
    has_id, index_of_id, inserted, key_taken, lemma_index_of_id, lemma_inserted_well_formed,
    lemma_put_well_formed, lemma_rank, lemma_removed_well_formed, lemma_updated_well_formed, lookup,
    put, rank, well_formed,
};
use crate::update::{create_check, page_of, patched, update_check, upsert_check, PatchView};
use vstd::prelude::*;

verus! {

/// The page on which the record at position `p` of the listing stands.
pub open spec fn page_holding(p: int, per_page: int) -> int {
    p / per_page + 1
}

/// After a record was created, it is found under its identifier, and the
/// listing holds it: it stands on the page of its position.
pub proof fn lemma_created_is_found_and_listed(s: Seq<RecordView>, r: RecordView, per_page: int)
    requires
        well_formed(s),
        create_check(s, r) is Ok,
        r.created_at.not_after(r.updated_at),
        1 <= per_page,
    ensures
        well_formed(inserted(s, r)),
        lookup(inserted(s, r), r.id) == Some(r),
        page_holding(rank(s, r), per_page) >= 1,
        page_of(inserted(s, r), page_holding(rank(s, r), per_page), per_page).contains(r),
{
    lemma_inserted_well_formed(s, r);
    lemma_index_of_id(s, r.id);
    lemma_rank(s, r);
    let t = inserted(s, r);
    let p = rank(s, r);
    let page = page_holding(p, per_page);
    let start = (page - 1) * per_page;
    assert(start <= p < start + per_page && page >= 1) by (nonlinear_arith)
        requires
            p >= 0,
            per_page >= 1,
            page == p / per_page + 1,
            start == (page - 1) * per_page,
    ;
    assert(t[p] == r);
    let end = if start + per_page < t.len() {
        start + per_page
    } else {
        t.len() as int
    };
    let shown = t.subrange(start, end);
    assert(shown == page_of(t, page, per_page));
    assert(shown[p - start] == r);
}

/// After a record was deleted, nothing is found under its identifier.
pub proof fn lemma_deleted_is_gone(s: Seq<RecordView>, id: Seq<char>)
    requires
        well_formed(s),
        has_id(s, id),
    ensures
        well_formed(s.remove(index_of_id(s, id))),
        lookup(s.remove(index_of_id(s, id)), id) is None,
{
    lemma_index_of_id(s, id);
    lemma_removed_well_formed(s, index_of_id(s, id));
}

/// An update keeps the identifier and the creation time of the record, and
/// never moves its `updated_at` back; the updated record is then found
/// under the identifier.
pub proof fn lemma_update_keeps_identity(
    s: Seq<RecordView>,
    id: Seq<char>,
    patch: PatchView,
    now: Timestamp,
)
    requires
        well_formed(s),
        update_check(s, id, patch, now) is Ok,
    ensures
        has_id(s, id),
        update_check(s, id, patch, now)->Ok_0.id == id,
        update_check(s, id, patch, now)->Ok_0.created_at == lookup(s, id)->0.created_at,
        lookup(s, id)->0.updated_at.not_after(update_check(s, id, patch, now)->Ok_0.updated_at),
        well_formed(s.update(index_of_id(s, id), update_check(s, id, patch, now)->Ok_0)),
        lookup(s.update(index_of_id(s, id), update_check(s, id, patch, now)->Ok_0), id) == Some(
            update_check(s, id, patch, now)->Ok_0,
        ),
{
    lemma_index_of_id(s, id);
    let i = index_of_id(s, id);
    let before = patched(s[i], patch)->Ok_0;
    let after = update_check(s, id, patch, now)->Ok_0;
    assert(after == (RecordView { updated_at: touched(before, now), ..before }));
    assert(validate_spec(after) == validate_spec(before));
    assert(key_taken(s, after) == key_taken(s, before));
    lemma_updated_well_formed(s, i, after);
}

/// A create-or-replace keeps the store well-formed, and the record is then
/// found under its identifier.
pub proof fn lemma_upsert_keeps_well_formed(s: Seq<RecordView>, r: RecordView, now: Timestamp)
    requires
        well_formed(s),
        upsert_check(s, r, now) is Ok,
    ensures
        well_formed(put(s, upsert_check(s, r, now)->Ok_0)),
        lookup(put(s, upsert_check(s, r, now)->Ok_0), r.id) == Some(upsert_check(s, r, now)->Ok_0),
{
    let after = upsert_check(s, r, now)->Ok_0;
    assert(validate_spec(after) == validate_spec(r));
    assert(key_taken(s, after) == key_taken(s, r));
    lemma_put_well_formed(s, after);
}

} // verus!
