use vstd::prelude::*;

use crate::db::{
    artist_leq, has_note, has_record, has_store, has_store_tuple, has_user, note_id_leq,
    note_not_id, record_not_id, record_owned, store_name_leq, store_not_id, store_tuple_key,
    ur_pair_key, ur_user_key, user_name_leq, user_not_id, user_owns_record, DbV, UserRecordV,
};
use crate::notes::{spec_merge_note, NoteV, UpdateNoteSchema};
use crate::order::{
    lemma_lex_le_total, lemma_lex_le_trans, lemma_sort_by_multiset, lemma_sort_by_sorted,
    spec_sort_by,
};
use crate::paging::window;
use crate::records::{
    spec_merge_record, spec_new_record, CreateRecordSchema, RecordV, UpdateRecordSchema,
};
use crate::seqs::{
    distinct_by, exists_key, lemma_exists_key_push, lemma_filter_elements, lemma_filter_push,
};
use crate::stores::{
    spec_merge_store, spec_new_store, CreateRecordStoreSchema, RecordStoreV,
    UpdateRecordStoreSchema,
};
use crate::text::{contains_seq, lemma_concat_contains_mid};
use crate::users::{spec_merge_user, UpdateUserSchema, UserV};

verus! {

/// Two stores with the same identifying tuple cannot both be created:
/// once a create has appended a store, any later create whose body
/// carries an equal name, address, city, and state finds the tuple
/// present, which its contract maps to the conflict response.
pub proof fn lemma_second_identical_store_conflicts(
    db: DbV,
    first: CreateRecordStoreSchema,
    second: CreateRecordStoreSchema,
    id: Seq<char>,
)
    requires
        second.store_name@ == first.store_name@,
        second.store_address@ == first.store_address@,
        second.store_city@ == first.store_city@,
        second.store_state@ == first.store_state@,
    ensures
        has_store_tuple(
            db.record_stores.push(spec_new_store(first, id)),
            second.store_name@,
            second.store_address@,
            second.store_city@,
            second.store_state@,
        ),
{
    let row = spec_new_store(first, id);
    lemma_exists_key_push(
        db.record_stores,
        store_tuple_key(),
        (second.store_name@, second.store_address@, second.store_city@, second.store_state@),
        row,
    );
}

/// Two stores that differ in any one identifying field can both be
/// created: with the second tuple absent from the store and unequal to
/// the first body's tuple, the second create still finds no duplicate
/// after the first has appended its row, so its contract owes success
/// (under a fresh identifier).
pub proof fn lemma_differing_stores_both_succeed(
    db: DbV,
    first: CreateRecordStoreSchema,
    second: CreateRecordStoreSchema,
    first_id: Seq<char>,
    second_id: Seq<char>,
)
    requires
        !has_store_tuple(
            db.record_stores,
            second.store_name@,
            second.store_address@,
            second.store_city@,
            second.store_state@,
        ),
        (second.store_name@, second.store_address@, second.store_city@, second.store_state@) != (
            first.store_name@,
            first.store_address@,
            first.store_city@,
            first.store_state@,
        ),
        !has_store(db.record_stores, second_id),
        second_id != first_id,
    ensures
        !has_store_tuple(
            db.record_stores.push(spec_new_store(first, first_id)),
            second.store_name@,
            second.store_address@,
            second.store_city@,
            second.store_state@,
        ),
        !has_store(db.record_stores.push(spec_new_store(first, first_id)), second_id),
{
    let row = spec_new_store(first, first_id);
    let tuple = (second.store_name@, second.store_address@, second.store_city@,
        second.store_state@);
    lemma_exists_key_push(db.record_stores, store_tuple_key(), tuple, row);
    assert(store_tuple_key()(row) != tuple);
    lemma_exists_key_push(db.record_stores, crate::db::store_id_key(), second_id, row);
    assert(crate::db::store_id_key()(row) != second_id);
}

/// Every not-found message names the identifier it speaks of: each is a
/// fixed prefix, the identifier, and possibly a fixed suffix, so the
/// identifier occurs contiguously inside the message.
pub proof fn lemma_not_found_message_contains_id(id: Seq<char>)
    ensures
        contains_seq("user_id "@ + id + " not found"@, id),
        contains_seq("user id: "@ + id + " not found"@, id),
        contains_seq("record_id "@ + id + " not found"@, id),
        contains_seq("record id: "@ + id + " not found"@, id),
        contains_seq("record_store_id "@ + id + " not found"@, id),
        contains_seq("record store id: "@ + id + " not found"@, id),
        contains_seq("Note with ID: "@ + id + " not found"@, id),
{
    lemma_concat_contains_mid("user_id "@, id, " not found"@);
    lemma_concat_contains_mid("user id: "@, id, " not found"@);
    lemma_concat_contains_mid("record_id "@, id, " not found"@);
    lemma_concat_contains_mid("record id: "@, id, " not found"@);
    lemma_concat_contains_mid("record_store_id "@, id, " not found"@);
    lemma_concat_contains_mid("record store id: "@, id, " not found"@);
    lemma_concat_contains_mid("Note with ID: "@, id, " not found"@);
}

/// A patch with every field absent merges to the stored user row itself,
/// and writing it back leaves the table unchanged: a no-op patch is
/// idempotent.
pub proof fn lemma_noop_patch_user(users: Seq<UserV>, i: int, body: UpdateUserSchema)
    requires
        0 <= i < users.len(),
        body.user_name is None,
        body.user_first_name is None,
        body.user_last_name is None,
        body.user_email is None,
        body.user_password is None,
    ensures
        spec_merge_user(users[i], body, None) == users[i],
        users.update(i, spec_merge_user(users[i], body, None)) == users,
{
    assert(users.update(i, users[i]) =~= users);
}

/// A patch with every field absent merges to the stored record itself,
/// and writing it back leaves the table unchanged.
pub proof fn lemma_noop_patch_record(records: Seq<RecordV>, i: int, body: UpdateRecordSchema)
    requires
        0 <= i < records.len(),
        body.artist is None,
        body.title is None,
        body.released is None,
        body.genre is None,
        body.format is None,
        body.price is None,
        body.label is None,
        body.duration_length is None,
    ensures
        spec_merge_record(records[i], body) == records[i],
        records.update(i, spec_merge_record(records[i], body)) == records,
{
    assert(records.update(i, records[i]) =~= records);
}

/// A patch with every field absent merges to the stored store row itself,
/// and writing it back leaves the table unchanged.
pub proof fn lemma_noop_patch_store(stores: Seq<RecordStoreV>, i: int, body: UpdateRecordStoreSchema)
    requires
        0 <= i < stores.len(),
        body.store_name is None,
        body.store_address is None,
        body.store_city is None,
        body.store_state is None,
        body.store_zip is None,
        body.phone_number is None,
        body.website is None,
    ensures
        spec_merge_store(stores[i], body) == stores[i],
        stores.update(i, spec_merge_store(stores[i], body)) == stores,
{
    assert(stores.update(i, stores[i]) =~= stores);
}

/// A patch with every field absent leaves every stored note field
/// unchanged but the update stamp, which every rewrite renews.
pub proof fn lemma_noop_patch_note(notes: Seq<NoteV>, i: int, body: UpdateNoteSchema, now: i64)
    requires
        0 <= i < notes.len(),
        body.title is None,
        body.content is None,
        body.category is None,
        body.published is None,
    ensures
        spec_merge_note(notes[i], body, now) == (NoteV { updated_at: now, ..notes[i] }),
{
}

/// Once a delete has filtered a user out, no row carries the identifier,
/// so a second delete of the same identifier reports not-found.
pub proof fn lemma_user_gone_after_delete(users: Seq<UserV>, id: Seq<char>)
    ensures
        !has_user(users.filter(user_not_id(id)), id),
{
    let out = users.filter(user_not_id(id));
    lemma_filter_elements(users, user_not_id(id));
    if has_user(out, id) {
        let i = choose|i: int|
            0 <= i < out.len() && crate::db::user_id_key()(#[trigger] out[i]) == id;
        assert(user_not_id(id)(out[i]));
    }
}

/// Once a delete has filtered a record out, no row carries the
/// identifier, so a second delete of the same identifier reports
/// not-found.
pub proof fn lemma_record_gone_after_delete(records: Seq<RecordV>, id: Seq<char>)
    ensures
        !has_record(records.filter(record_not_id(id)), id),
{
    let out = records.filter(record_not_id(id));
    lemma_filter_elements(records, record_not_id(id));
    if has_record(out, id) {
        let i = choose|i: int|
            0 <= i < out.len() && crate::db::record_id_key()(#[trigger] out[i]) == id;
        assert(record_not_id(id)(out[i]));
    }
}

/// Once a delete has filtered a store out, no row carries the identifier,
/// so a second delete of the same identifier reports not-found.
pub proof fn lemma_store_gone_after_delete(stores: Seq<RecordStoreV>, id: Seq<char>)
    ensures
        !has_store(stores.filter(store_not_id(id)), id),
{
    let out = stores.filter(store_not_id(id));
    lemma_filter_elements(stores, store_not_id(id));
    if has_store(out, id) {
        let i = choose|i: int|
            0 <= i < out.len() && crate::db::store_id_key()(#[trigger] out[i]) == id;
        assert(store_not_id(id)(out[i]));
    }
}

/// Once a delete has filtered a note out, no row carries the identifier,
/// so a second delete of the same identifier reports not-found.
pub proof fn lemma_note_gone_after_delete(notes: Seq<NoteV>, id: Seq<char>)
    ensures
        !has_note(notes.filter(note_not_id(id)), id),
{
    let out = notes.filter(note_not_id(id));
    lemma_filter_elements(notes, note_not_id(id));
    if has_note(out, id) {
        let i = choose|i: int|
            0 <= i < out.len() && crate::db::note_id_key()(#[trigger] out[i]) == id;
        assert(note_not_id(id)(out[i]));
    }
}

/// Stepping the page number by one moves the window start by exactly the
/// page size.
pub proof fn lemma_offset_advances_by_limit(page: usize, limit: usize, default_limit: usize)
    requires
        page >= 1,
        page < usize::MAX,
    ensures
        crate::paging::spec_offset(
            crate::paging::FilterOptions { page: Some((page + 1) as usize), limit: Some(limit) },
            default_limit,
        ) == crate::paging::spec_offset(
            crate::paging::FilterOptions { page: Some(page), limit: Some(limit) },
            default_limit,
        ) + limit,
{
    assert((page + 1 - 1) * limit == (page - 1) * limit + limit) by (nonlinear_arith);
}

/// Two windows of the same table whose index ranges do not overlap share
/// no key: with one page size, consecutive pages return disjoint row
/// sets.
pub proof fn lemma_pages_disjoint<A, K>(
    s: Seq<A>,
    key: spec_fn(A) -> K,
    off1: int,
    off2: int,
    limit: int,
)
    requires
        distinct_by(s, key),
        0 <= off1,
        0 <= limit,
        off1 + limit <= off2,
    ensures
        forall|i: int, j: int|
            0 <= i < window(s, off1, limit).len() && 0 <= j < window(s, off2, limit).len()
                ==> key(#[trigger] window(s, off1, limit)[i]) != key(
                #[trigger] window(s, off2, limit)[j],
            ),
{
    let w1 = window(s, off1, limit);
    let w2 = window(s, off2, limit);
    assert forall|i: int, j: int| 0 <= i < w1.len() && 0 <= j < w2.len() implies key(
        #[trigger] w1[i],
    ) != key(#[trigger] w2[j]) by {
        assert(w1[i] == s[off1 + i]);
        assert(w2[j] == s[off2 + j]);
        assert(off1 + i < off2 + j + 1);
    }
}

/// Creating a record and attaching it to a user who owned nothing, then
/// listing that user's collection, returns exactly the one created
/// record, whose artist and title are the payload's own.
pub proof fn lemma_create_and_attach_then_list(
    db: DbV,
    user_id: Seq<char>,
    body: CreateRecordSchema,
    new_record_id: Seq<char>,
    new_link_id: Seq<char>,
)
    requires
        !exists_key(db.user_records, ur_user_key(), user_id),
        !has_record(db.records, new_record_id),
    ensures
        ({
            let row = spec_new_record(body, new_record_id);
            let link = UserRecordV {
                user_record_id: new_link_id,
                user_id: user_id,
                record_id: new_record_id,
            };
            let records2 = db.records.push(row);
            let links2 = db.user_records.push(link);
            &&& exists_key(links2, ur_user_key(), user_id)
            &&& records2.filter(record_owned(links2, user_id)) =~= seq![row]
            &&& row.artist == body.artist@
            &&& row.title == body.title@
        }),
{
    let row = spec_new_record(body, new_record_id);
    let link = UserRecordV {
        user_record_id: new_link_id,
        user_id: user_id,
        record_id: new_record_id,
    };
    let records2 = db.records.push(row);
    let links2 = db.user_records.push(link);
    lemma_exists_key_push(db.user_records, ur_user_key(), user_id, link);
    let pred = record_owned(links2, user_id);
    assert forall|i: int| 0 <= i < db.records.len() implies !pred(#[trigger] db.records[i]) by {
        let e = db.records[i];
        if user_owns_record(links2, user_id, e.record_id) {
            let j = choose|j: int|
                0 <= j < links2.len() && ur_pair_key()(#[trigger] links2[j]) == (
                    user_id,
                    e.record_id,
                );
            if j < db.user_records.len() {
                assert(ur_user_key()(db.user_records[j]) == user_id);
            } else {
                assert(links2[j] == link);
                assert(crate::db::record_id_key()(e) == new_record_id);
            }
        }
    }
    let kept = db.records.filter(pred);
    lemma_filter_elements(db.records, pred);
    if kept.len() > 0 {
        let e = kept[0];
        let i = choose|i: int| 0 <= i < db.records.len() && db.records[i] == e;
        assert(!pred(db.records[i]));
    }
    assert(pred(row)) by {
        assert(ur_pair_key()(links2[links2.len() - 1]) == (user_id, new_record_id));
    }
    lemma_filter_push(db.records, pred, row);
    assert(records2.filter(pred) =~= seq![row]);
}

/// The record-store list's window source is the table reordered by store name:
/// pairwise ordered under the key comparison, and a permutation of the
/// stored rows.
pub proof fn lemma_store_list_ordering(rows: Seq<RecordStoreV>)
    ensures
        vstd::relations::sorted_by(spec_sort_by(rows, store_name_leq()), store_name_leq()),
        spec_sort_by(rows, store_name_leq()).to_multiset() == rows.to_multiset(),
{
    assert forall|x: RecordStoreV, y: RecordStoreV| #[trigger] store_name_leq()(x, y) || store_name_leq()(y, x) by {
        lemma_lex_le_total(x.store_name, y.store_name);
    }
    assert(vstd::relations::strongly_connected(store_name_leq()));
    assert forall|x: RecordStoreV, y: RecordStoreV, z: RecordStoreV|
        #[trigger] store_name_leq()(x, y) && #[trigger] store_name_leq()(y, z) implies store_name_leq()(x, z) by {
        lemma_lex_le_trans(x.store_name, y.store_name, z.store_name);
    }
    assert(vstd::relations::transitive(store_name_leq()));
    lemma_sort_by_sorted(rows, store_name_leq());
    lemma_sort_by_multiset(rows, store_name_leq());
}

/// The user list's window source is the table reordered by user name:
/// pairwise ordered under the key comparison, and a permutation of the
/// stored rows.
pub proof fn lemma_user_list_ordering(rows: Seq<UserV>)
    ensures
        vstd::relations::sorted_by(spec_sort_by(rows, user_name_leq()), user_name_leq()),
        spec_sort_by(rows, user_name_leq()).to_multiset() == rows.to_multiset(),
{
    assert forall|x: UserV, y: UserV| #[trigger] user_name_leq()(x, y) || user_name_leq()(y, x) by {
        lemma_lex_le_total(x.user_name, y.user_name);
    }
    assert(vstd::relations::strongly_connected(user_name_leq()));
    assert forall|x: UserV, y: UserV, z: UserV|
        #[trigger] user_name_leq()(x, y) && #[trigger] user_name_leq()(y, z) implies user_name_leq()(x, z) by {
        lemma_lex_le_trans(x.user_name, y.user_name, z.user_name);
    }
    assert(vstd::relations::transitive(user_name_leq()));
    lemma_sort_by_sorted(rows, user_name_leq());
    lemma_sort_by_multiset(rows, user_name_leq());
}

/// The record list's window source is the table reordered by artist:
/// pairwise ordered under the key comparison, and a permutation of the
/// stored rows.
pub proof fn lemma_record_list_ordering(rows: Seq<RecordV>)
    ensures
        vstd::relations::sorted_by(spec_sort_by(rows, artist_leq()), artist_leq()),
        spec_sort_by(rows, artist_leq()).to_multiset() == rows.to_multiset(),
{
    assert forall|x: RecordV, y: RecordV| #[trigger] artist_leq()(x, y) || artist_leq()(y, x) by {
        lemma_lex_le_total(x.artist, y.artist);
    }
    assert(vstd::relations::strongly_connected(artist_leq()));
    assert forall|x: RecordV, y: RecordV, z: RecordV|
        #[trigger] artist_leq()(x, y) && #[trigger] artist_leq()(y, z) implies artist_leq()(x, z) by {
        lemma_lex_le_trans(x.artist, y.artist, z.artist);
    }
    assert(vstd::relations::transitive(artist_leq()));
    lemma_sort_by_sorted(rows, artist_leq());
    lemma_sort_by_multiset(rows, artist_leq());
}

/// The note list's window source is the table reordered by identifier:
/// pairwise ordered under the key comparison, and a permutation of the
/// stored rows.
pub proof fn lemma_note_list_ordering(rows: Seq<NoteV>)
    ensures
        vstd::relations::sorted_by(spec_sort_by(rows, note_id_leq()), note_id_leq()),
        spec_sort_by(rows, note_id_leq()).to_multiset() == rows.to_multiset(),
{
    assert forall|x: NoteV, y: NoteV| #[trigger] note_id_leq()(x, y) || note_id_leq()(y, x) by {
        lemma_lex_le_total(x.id, y.id);
    }
    assert(vstd::relations::strongly_connected(note_id_leq()));
    assert forall|x: NoteV, y: NoteV, z: NoteV|
        #[trigger] note_id_leq()(x, y) && #[trigger] note_id_leq()(y, z) implies note_id_leq()(x, z) by {
        lemma_lex_le_trans(x.id, y.id, z.id);
    }
    assert(vstd::relations::transitive(note_id_leq()));
    lemma_sort_by_sorted(rows, note_id_leq());
    lemma_sort_by_multiset(rows, note_id_leq());
}


} // verus!
