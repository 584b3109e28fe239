use vstd::prelude::*;
use vstd::string::*;

use crate::db::{
    artist_leq, collect_wishlist_records, find_user, has_record, has_user,
    lemma_record_with_id_is, sort_records_by_artist,
    lemma_wf_delete_record, lemma_wf_filter_uw, lemma_wf_push_record, lemma_wf_push_uw,
    lemma_wf_update_record, record_id_key, record_not_id, record_wished, record_with_id,
    retain_records_not_id, retain_user_records_not_record, retain_wishlist_not_pair,
    retain_wishlist_not_record, retain_wishlist_not_user, ur_not_record, user_id_key,
    user_wishes_record, uw_has_user, uw_id_key, uw_id_used, uw_not_pair, uw_not_record,
    uw_not_user, uw_pair_key, uw_user_key, window_records, Db, DbV, WishlistRow, WishlistV,
};
use crate::error::ApiError;
use crate::order::spec_sort_by;
use crate::paging::{page_window, spec_limit, spec_offset, valid_filter, window, FilterOptions};
use crate::seqs::{
    exists_key, lemma_exists_key_push, lemma_filter_all, lemma_filter_shorter, view_seq,
};
use crate::text::{concat2, concat3, concat4};
use crate::users::{PatchUserRecord, PutUserRecord};

verus! {

/// A stored record row. The release date is held as a day number and the
/// duration as a number of seconds; the price is held in cents. The outside
/// date, time, and decimal types those values travel in elsewhere are
/// converted at the application boundary.
pub struct RecordModel {
    pub record_id: String,
    pub artist: String,
    pub title: String,
    pub released: i32,
    pub genre: Vec<String>,
    pub format: String,
    pub price: u64,
    pub label: String,
    pub duration_length: u32,
}

/// The mathematical value of a stored record row.
pub ghost struct RecordV {
    pub record_id: Seq<char>,
    pub artist: Seq<char>,
    pub title: Seq<char>,
    pub released: i32,
    pub genre: Seq<Seq<char>>,
    pub format: Seq<char>,
    pub price: u64,
    pub label: Seq<char>,
    pub duration_length: u32,
}

impl View for RecordModel {
    type V = RecordV;

    open spec fn view(&self) -> RecordV {
        RecordV {
            record_id: self.record_id@,
            artist: self.artist@,
            title: self.title@,
            released: self.released,
            genre: self.genre.deep_view(),
            format: self.format@,
            price: self.price,
            label: self.label@,
            duration_length: self.duration_length,
        }
    }
}

impl RecordModel {
    /// A field-for-field copy of the row.
    pub fn duplicate(&self) -> (r: RecordModel)
        ensures
            r@ == self@,
    {
        let mut genre: Vec<String> = Vec::new();
        let n = self.genre.len();
        let mut i: usize = 0;
        while i < n
            invariant
                i <= n,
                n == self.genre.len(),
                genre.len() == i,
                forall|k: int| 0 <= k < i ==> genre@[k]@ == self.genre@[k]@,
            decreases n - i,
        {
            genre.push(self.genre[i].clone());
            i += 1;
        }
        proof {
            assert(genre.deep_view() =~= self.genre.deep_view());
        }
        RecordModel {
            record_id: self.record_id.clone(),
            artist: self.artist.clone(),
            title: self.title.clone(),
            released: self.released,
            genre,
            format: self.format.clone(),
            price: self.price,
            label: self.label.clone(),
            duration_length: self.duration_length,
        }
    }
}

/// The body of a record create request. Genre, format, and price are
/// optional; absent values take the documented defaults (no genres, the
/// `"LP"` format, a price of zero).
pub struct CreateRecordSchema {
    pub artist: String,
    pub title: String,
    pub released: i32,
    pub genre: Option<Vec<String>>,
    pub format: Option<String>,
    pub price: Option<u64>,
    pub label: String,
    pub duration_length: u32,
}

/// The body of a record update request: a partial schema where every field
/// is optional. An absent field falls back to the stored value.
pub struct UpdateRecordSchema {
    pub artist: Option<String>,
    pub title: Option<String>,
    pub released: Option<i32>,
    pub genre: Option<Vec<String>>,
    pub format: Option<String>,
    pub price: Option<u64>,
    pub label: Option<String>,
    pub duration_length: Option<u32>,
}

/// Unwraps a supplied genre list, or supplies the empty list when none was
/// given.
pub fn combine_supplied_genres(record_genres: Option<Vec<String>>) -> (r: Vec<String>)
    ensures
        match record_genres {
            Some(genres) => r == genres,
            None => r@.len() == 0,
        },
{
    match record_genres {
        Some(genres) => genres,
        None => Vec::new(),
    }
}


/// The row a record create request stores: the body's fields under the
/// generated identifier, with the documented defaults filled in — no
/// genres, the `"LP"` format, and a price of zero.
pub open spec fn spec_new_record(body: CreateRecordSchema, id: Seq<char>) -> RecordV {
    RecordV {
        record_id: id,
        artist: body.artist@,
        title: body.title@,
        released: body.released,
        genre: match body.genre {
            Some(g) => g.deep_view(),
            None => Seq::empty(),
        },
        format: match body.format {
            Some(f) => f@,
            None => "LP"@,
        },
        price: match body.price {
            Some(p) => p,
            None => 0,
        },
        label: body.label@,
        duration_length: body.duration_length,
    }
}

/// The patch-merge of an update body over a stored record: each supplied
/// field replaces the stored value, each absent field keeps it; the
/// identifier never changes.
pub open spec fn spec_merge_record(r: RecordV, body: UpdateRecordSchema) -> RecordV {
    RecordV {
        record_id: r.record_id,
        artist: match body.artist {
            Some(a) => a@,
            None => r.artist,
        },
        title: match body.title {
            Some(t) => t@,
            None => r.title,
        },
        released: match body.released {
            Some(d) => d,
            None => r.released,
        },
        genre: match body.genre {
            Some(g) => g.deep_view(),
            None => r.genre,
        },
        format: match body.format {
            Some(f) => f@,
            None => r.format,
        },
        price: match body.price {
            Some(p) => p,
            None => r.price,
        },
        label: match body.label {
            Some(l) => l@,
            None => r.label,
        },
        duration_length: match body.duration_length {
            Some(d) => d,
            None => r.duration_length,
        },
    }
}

/// An element-for-element copy of a genre list.
pub fn clone_genre_list(genre: &Vec<String>) -> (r: Vec<String>)
    ensures
        r.deep_view() == genre.deep_view(),
{
    let mut out: Vec<String> = Vec::new();
    let n = genre.len();
    let mut i: usize = 0;
    while i < n
        invariant
            i <= n,
            n == genre.len(),
            out.len() == i,
            forall|k: int| 0 <= k < i ==> out@[k]@ == genre@[k]@,
        decreases n - i,
    {
        out.push(genre[i].clone());
        i += 1;
    }
    proof {
        assert(out.deep_view() =~= genre.deep_view());
    }
    out
}

/// Builds the stored row for a record create request, filling the
/// documented defaults for the absent optional fields.
pub fn build_record(body: &CreateRecordSchema, id: &str) -> (r: RecordModel)
    ensures
        r@ == spec_new_record(*body, id@),
{
    let genre = match &body.genre {
        Some(g) => clone_genre_list(g),
        None => Vec::new(),
    };
    let format = match &body.format {
        Some(f) => f.clone(),
        None => String::from_str("LP"),
    };
    let price = match &body.price {
        Some(p) => *p,
        None => 0,
    };
    let r = RecordModel {
        record_id: String::from_str(id),
        artist: body.artist.clone(),
        title: body.title.clone(),
        released: body.released,
        genre,
        format,
        price,
        label: body.label.clone(),
        duration_length: body.duration_length,
    };
    proof {
        assert(r@.genre =~= spec_new_record(*body, id@).genre);
    }
    r
}

/// Builds the patch-merge of an update body over a stored record.
pub fn build_merged_record(stored: &RecordModel, body: &UpdateRecordSchema) -> (r: RecordModel)
    ensures
        r@ == spec_merge_record(stored@, *body),
{
    let genre = match &body.genre {
        Some(g) => clone_genre_list(g),
        None => clone_genre_list(&stored.genre),
    };
    let r = RecordModel {
        record_id: stored.record_id.clone(),
        artist: match &body.artist {
            Some(a) => a.clone(),
            None => stored.artist.clone(),
        },
        title: match &body.title {
            Some(t) => t.clone(),
            None => stored.title.clone(),
        },
        released: match &body.released {
            Some(d) => *d,
            None => stored.released,
        },
        genre,
        format: match &body.format {
            Some(f) => f.clone(),
            None => stored.format.clone(),
        },
        price: match &body.price {
            Some(p) => *p,
            None => stored.price,
        },
        label: match &body.label {
            Some(l) => l.clone(),
            None => stored.label.clone(),
        },
        duration_length: match &body.duration_length {
            Some(d) => *d,
            None => stored.duration_length,
        },
    };
    proof {
        assert(r@.genre =~= spec_merge_record(stored@, *body).genre);
    }
    r
}


/// The default page size of the record list.
pub const RECORDS_PAGE_SIZE: usize = 10;

/// Lists a window of records ordered by artist: up to `limit` rows (ten
/// when unspecified), skipping `page - 1` whole pages.
pub fn list_all_records(db: &Db, opts: &FilterOptions) -> (r: Vec<RecordModel>)
    requires
        valid_filter(*opts, RECORDS_PAGE_SIZE),
    ensures
        view_seq(r@) == window(
            spec_sort_by(db@.records, artist_leq()),
            spec_offset(*opts, RECORDS_PAGE_SIZE),
            spec_limit(*opts, RECORDS_PAGE_SIZE),
        ),
{
    let (limit, offset) = page_window(opts, RECORDS_PAGE_SIZE);
    let sorted = sort_records_by_artist(&db.records);
    window_records(&sorted, offset, limit)
}

/// Fetches one record by identifier, or not-found when no row carries it
/// (a malformed identifier matches no row).
pub fn find_record(db: &Db, id: &str) -> (r: Result<RecordModel, ApiError>)
    requires
        db.wf(),
    ensures
        match r {
            Ok(record) => has_record(db@.records, id@) && record@ == record_with_id(
                db@.records,
                id@,
            ),
            Err(e) => !has_record(db@.records, id@) && (e matches ApiError::NotFound { message }
                && message@ == "record_id "@ + id@ + " not found"@),
        },
{
    match crate::db::find_record(&db.records, id) {
        Some(i) => {
            proof {
                lemma_record_with_id_is(db@.records, id@, i as int);
            }
            Ok(db.records[i].duplicate())
        },
        None => Err(ApiError::NotFound { message: concat3("record_id ", id, " not found") }),
    }
}

/// Patches a record: fetches the stored row (not-found when absent),
/// merges every supplied field over it, and writes the whole row back. A
/// no-op patch leaves the row exactly as it was.
pub fn edit_record(db: &mut Db, id: &str, body: &UpdateRecordSchema) -> (r: Result<
    RecordModel,
    ApiError,
>)
    requires
        old(db).wf(),
    ensures
        final (db).wf(),
        ({
            let found = has_record(old(db)@.records, id@);
            let merged = spec_merge_record(record_with_id(old(db)@.records, id@), *body);
            &&& !found ==> (r matches Err(e) && e matches ApiError::NotFound { message }
                && message@ == "record id: "@ + id@ + " not found"@) && final (db)@ == old(db)@
            &&& found ==> (r matches Ok(updated) && updated@ == merged && exists|i: int|
                #![trigger old(db)@.records.update(i, merged)]
                {
                    &&& 0 <= i < old(db)@.records.len()
                    &&& old(db)@.records[i].record_id == id@
                    &&& final (db)@ == DbV {
                        records: old(db)@.records.update(i, merged),
                        ..old(db)@
                    }
                })
        }),
{
    let i = match crate::db::find_record(&db.records, id) {
        Some(i) => i,
        None => {
            return Err(ApiError::NotFound { message: concat3("record id: ", id, " not found") });
        },
    };
    proof {
        lemma_record_with_id_is(db@.records, id@, i as int);
    }
    let merged = build_merged_record(&db.records[i], body);
    let updated = merged.duplicate();
    proof {
        lemma_wf_update_record(db@, i as int, merged@);
    }
    let ghost db0 = db@;
    let ghost mergedv = merged@;
    db.records[i] = merged;
    proof {
        assert(db@.records =~= db0.records.update(i as int, mergedv));
        assert(db@ == DbV { records: db0.records.update(i as int, mergedv), ..db0 });
    }
    Ok(updated)
}

/// Creates a record: the row is appended with the documented defaults
/// filled in — no genres, the `"LP"` format, a price of zero — and
/// returned. A clash on the generated identifier surfaces as a store
/// failure.
pub fn create_new_record(db: &mut Db, body: &CreateRecordSchema, new_id: &str) -> (r: Result<
    RecordModel,
    ApiError,
>)
    requires
        old(db).wf(),
    ensures
        final (db).wf(),
        ({
            let id_used = has_record(old(db)@.records, new_id@);
            let row = spec_new_record(*body, new_id@);
            &&& id_used ==> (r matches Err(e) && e matches ApiError::StoreFailure { .. })
                && final (db)@ == old(db)@
            &&& !id_used ==> (r matches Ok(created) && created@ == row && final (db)@ == DbV {
                records: old(db)@.records.push(row),
                ..old(db)@
            })
        }),
{
    match crate::db::find_record(&db.records, new_id) {
        Some(i) => {
            proof {
                assert(record_id_key()(db@.records[i as int]) == new_id@);
            }
            return Err(
                ApiError::StoreFailure {
                    message: String::from_str("duplicate key value violated unique constraint"),
                },
            );
        },
        None => {},
    }
    let row = build_record(body, new_id);
    let created = row.duplicate();
    proof {
        lemma_wf_push_record(db@, row@);
    }
    let ghost db0 = db@;
    let ghost rowv = row@;
    db.records.push(row);
    proof {
        assert(db@.records =~= db0.records.push(rowv));
        assert(db@ == DbV { records: db0.records.push(rowv), ..db0 });
    }
    Ok(created)
}

/// Deletes a record by identifier, removing the row and every collection
/// and wishlist row that names it: not-found when no row matches, no
/// content otherwise.
pub fn delete_record_by_id(db: &mut Db, id: &str) -> (r: Result<(), ApiError>)
    requires
        old(db).wf(),
    ensures
        final (db).wf(),
        ({
            let found = has_record(old(db)@.records, id@);
            &&& !found ==> (r matches Err(e) && e matches ApiError::NotFound { message }
                && message@ == "record id: "@ + id@ + " not found"@) && final (db)@ == old(db)@
            &&& found ==> r is Ok && final (db)@ == DbV {
                records: old(db)@.records.filter(record_not_id(id@)),
                user_records: old(db)@.user_records.filter(ur_not_record(id@)),
                user_wishlist: old(db)@.user_wishlist.filter(uw_not_record(id@)),
                ..old(db)@
            }
        }),
{
    let ghost records0 = db@.records;
    let before = db.records.len();
    retain_records_not_id(&mut db.records, id);
    let after = db.records.len();
    proof {
        if has_record(records0, id@) {
            let i = choose|i: int|
                0 <= i < records0.len() && record_id_key()(#[trigger] records0[i]) == id@;
            assert(!record_not_id(id@)(records0[i]));
            lemma_filter_shorter(records0, record_not_id(id@), i);
        } else {
            assert forall|i: int| 0 <= i < records0.len() implies record_not_id(id@)(
                #[trigger] records0[i],
            ) by {
                if records0[i].record_id == id@ {
                    assert(record_id_key()(records0[i]) == id@);
                }
            }
            lemma_filter_all(records0, record_not_id(id@));
        }
    }
    if after == before {
        proof {
            assert(db@ == old(db)@);
        }
        return Err(ApiError::NotFound { message: concat3("record id: ", id, " not found") });
    }
    retain_user_records_not_record(&mut db.user_records, id);
    retain_wishlist_not_record(&mut db.user_wishlist, id);
    proof {
        lemma_wf_delete_record(old(db)@, id@);
        assert(db@ == DbV {
            records: old(db)@.records.filter(record_not_id(id@)),
            user_records: old(db)@.user_records.filter(ur_not_record(id@)),
            user_wishlist: old(db)@.user_wishlist.filter(uw_not_record(id@)),
            ..old(db)@
        });
    }
    Ok(())
}

/// Reads a user's wishlist: the owner must exist; nothing when they have
/// no wishlist rows (the empty-success response), otherwise every record
/// their wishlist names, in table order.
pub fn get_users_wishlist(db: &Db, user_id: &str) -> (r: Result<
    Option<Vec<RecordModel>>,
    ApiError,
>)
    requires
        db.wf(),
    ensures
        ({
            let found = has_user(db@.users, user_id@);
            &&& !found ==> (r matches Err(e) && e matches ApiError::NotFound { message }
                && message@ == "user_id "@ + user_id@ + " not found"@)
            &&& found ==> (r matches Ok(rows) && match rows {
                None => !exists_key(db@.user_wishlist, uw_user_key(), user_id@),
                Some(rows) => exists_key(db@.user_wishlist, uw_user_key(), user_id@) && view_seq(
                    rows@,
                ) == db@.records.filter(record_wished(db@.user_wishlist, user_id@)),
            })
        }),
{
    match find_user(&db.users, user_id) {
        Some(i) => {
            proof {
                assert(user_id_key()(db@.users[i as int]) == user_id@);
            }
        },
        None => {
            return Err(
                ApiError::NotFound { message: concat3("user_id ", user_id, " not found") },
            );
        },
    }
    if !uw_has_user(&db.user_wishlist, user_id) {
        return Ok(None);
    }
    Ok(Some(collect_wishlist_records(&db.records, &db.user_wishlist, user_id)))
}

/// The composite payload of a wishlist create-and-attach: the owner, the
/// created record's identifier as the join reference, and the record.
pub struct CreatedWishlistRecord {
    pub user_id: String,
    pub record_id: String,
    pub record: RecordModel,
}

/// Creates a record and places it on the user's wishlist in one call
/// sequence: the owner is verified first, the record is stored with its
/// defaults filled, and the wishlist row follows, stamped with the
/// instant it was added. When the wishlist insert fails the record stays
/// — the preceding statement is not rolled back.
pub fn add_to_user_wishlist(
    db: &mut Db,
    user_id: &str,
    body: &CreateRecordSchema,
    new_record_id: &str,
    new_wish_id: &str,
    now: i64,
) -> (r: Result<CreatedWishlistRecord, ApiError>)
    requires
        old(db).wf(),
    ensures
        final (db).wf(),
        ({
            let found = has_user(old(db)@.users, user_id@);
            let rec_used = has_record(old(db)@.records, new_record_id@);
            let wish_used = exists_key(old(db)@.user_wishlist, uw_id_key(), new_wish_id@);
            let row = spec_new_record(*body, new_record_id@);
            let wish = WishlistV {
                user_wish_list_id: new_wish_id@,
                user_id: user_id@,
                record_id: new_record_id@,
                added_at: now,
            };
            &&& !found ==> (r matches Err(e) && e matches ApiError::NotFound { message }
                && message@ == "user_id "@ + user_id@ + " not found"@) && final (db)@ == old(db)@
            &&& found && rec_used ==> (r matches Err(e) && e matches ApiError::StoreFailure { .. })
                && final (db)@ == old(db)@
            &&& found && !rec_used && wish_used ==> (r matches Err(e) && e matches
            ApiError::StoreFailure { .. }) && final (db)@ == DbV {
                records: old(db)@.records.push(row),
                ..old(db)@
            }
            &&& found && !rec_used && !wish_used ==> (r matches Ok(c) && c.user_id@ == user_id@
                && c.record_id@ == new_record_id@ && c.record@ == row && final (db)@ == DbV {
                records: old(db)@.records.push(row),
                user_wishlist: old(db)@.user_wishlist.push(wish),
                ..old(db)@
            })
        }),
{
    let u_idx = match find_user(&db.users, user_id) {
        Some(i) => i,
        None => {
            return Err(
                ApiError::NotFound { message: concat3("user_id ", user_id, " not found") },
            );
        },
    };
    proof {
        assert(user_id_key()(db@.users[u_idx as int]) == user_id@);
    }
    match crate::db::find_record(&db.records, new_record_id) {
        Some(i) => {
            proof {
                assert(record_id_key()(db@.records[i as int]) == new_record_id@);
            }
            return Err(
                ApiError::StoreFailure {
                    message: String::from_str("duplicate key value violated unique constraint"),
                },
            );
        },
        None => {},
    }
    let row = build_record(body, new_record_id);
    let record_out = row.duplicate();
    proof {
        lemma_wf_push_record(db@, row@);
    }
    let ghost db0 = db@;
    let ghost rowv = row@;
    db.records.push(row);
    proof {
        assert(db@.records =~= db0.records.push(rowv));
        assert(db@ == DbV { records: db0.records.push(rowv), ..db0 });
    }
    if uw_id_used(&db.user_wishlist, new_wish_id) {
        return Err(
            ApiError::StoreFailure {
                message: concat4(
                    "error when collecting wishlist items for user_id: ",
                    user_id,
                    ", ",
                    "duplicate key value violated unique constraint",
                ),
            },
        );
    }
    let wish = WishlistRow {
        user_wish_list_id: String::from_str(new_wish_id),
        user_id: String::from_str(user_id),
        record_id: String::from_str(new_record_id),
        added_at: now,
    };
    proof {
        assert(user_id_key()(db@.users[u_idx as int]) == user_id@);
        lemma_exists_key_push(db0.records, record_id_key(), new_record_id@, rowv);
        lemma_wf_push_uw(db@, wish@);
    }
    let ghost db1 = db@;
    let ghost wishv = wish@;
    db.user_wishlist.push(wish);
    proof {
        assert(db@.user_wishlist =~= db1.user_wishlist.push(wishv));
        assert(db@ == DbV {
            records: old(db)@.records.push(rowv),
            user_wishlist: old(db)@.user_wishlist.push(wishv),
            ..old(db)@
        });
    }
    Ok(
        CreatedWishlistRecord {
            user_id: String::from_str(user_id),
            record_id: String::from_str(new_record_id),
            record: record_out,
        },
    )
}

/// The composite payload of a wishlist attach: the owner, the generated
/// wishlist-row identifier, and the record wished for.
pub struct WishedUserRecord {
    pub user_id: String,
    pub user_wish_list_id: String,
    pub record: RecordModel,
}

/// Places an existing record on the user's wishlist: the owner and the
/// record must both exist; nothing guards against wishing for the same
/// record twice. A missing owner is reported in terms of the record
/// identifier the body names.
pub fn put_wishlist_record(
    db: &mut Db,
    user_id: &str,
    body: &PutUserRecord,
    new_wish_id: &str,
    now: i64,
) -> (r: Result<WishedUserRecord, ApiError>)
    requires
        old(db).wf(),
    ensures
        final (db).wf(),
        ({
            let found = has_user(old(db)@.users, user_id@);
            let rec_found = has_record(old(db)@.records, body.record_id@);
            let wish_used = exists_key(old(db)@.user_wishlist, uw_id_key(), new_wish_id@);
            let wish = WishlistV {
                user_wish_list_id: new_wish_id@,
                user_id: user_id@,
                record_id: body.record_id@,
                added_at: now,
            };
            &&& !found ==> (r matches Err(e) && e matches ApiError::NotFound { message }
                && message@ == "record "@ + body.record_id@ + " not found"@)
                && final (db)@ == old(db)@
            &&& found && !rec_found ==> (r matches Err(e) && e matches ApiError::NotFound {
                message,
            } && message@ == "record_id: "@ + body.record_id@ + " not found"@) && final (db)@
                == old(db)@
            &&& found && rec_found && wish_used ==> (r matches Err(e) && e matches
            ApiError::StoreFailure { .. }) && final (db)@ == old(db)@
            &&& found && rec_found && !wish_used ==> (r matches Ok(c) && c.user_id@ == user_id@
                && c.user_wish_list_id@ == new_wish_id@ && c.record@ == record_with_id(
                old(db)@.records,
                body.record_id@,
            ) && final (db)@ == DbV {
                user_wishlist: old(db)@.user_wishlist.push(wish),
                ..old(db)@
            })
        }),
{
    let u_idx = match find_user(&db.users, user_id) {
        Some(i) => i,
        None => {
            return Err(
                ApiError::NotFound {
                    message: concat3("record ", body.record_id.as_str(), " not found"),
                },
            );
        },
    };
    proof {
        assert(user_id_key()(db@.users[u_idx as int]) == user_id@);
    }
    let r_idx = match crate::db::find_record(&db.records, body.record_id.as_str()) {
        Some(i) => i,
        None => {
            return Err(
                ApiError::NotFound {
                    message: concat3("record_id: ", body.record_id.as_str(), " not found"),
                },
            );
        },
    };
    proof {
        lemma_record_with_id_is(db@.records, body.record_id@, r_idx as int);
    }
    if uw_id_used(&db.user_wishlist, new_wish_id) {
        return Err(
            ApiError::StoreFailure {
                message: concat4(
                    "error when collecting record for user_id: ",
                    user_id,
                    ", ",
                    "duplicate key value violated unique constraint",
                ),
            },
        );
    }
    let record_out = db.records[r_idx].duplicate();
    let wish = WishlistRow {
        user_wish_list_id: String::from_str(new_wish_id),
        user_id: String::from_str(user_id),
        record_id: body.record_id.clone(),
        added_at: now,
    };
    proof {
        assert(record_id_key()(db@.records[r_idx as int]) == body.record_id@);
        lemma_wf_push_uw(db@, wish@);
    }
    let ghost db0 = db@;
    let ghost wishv = wish@;
    db.user_wishlist.push(wish);
    proof {
        assert(db@.user_wishlist =~= db0.user_wishlist.push(wishv));
        assert(db@ == DbV { user_wishlist: db0.user_wishlist.push(wishv), ..db0 });
    }
    Ok(
        WishedUserRecord {
            user_id: String::from_str(user_id),
            user_wish_list_id: String::from_str(new_wish_id),
            record: record_out,
        },
    )
}

/// Removes one record from the user's wishlist: the user must exist, and
/// exactly the wishlist rows matching both keys are removed; when none
/// matched, not-found.
pub fn remove_wishlist_record(db: &mut Db, user_id: &str, body: &PatchUserRecord) -> (r: Result<
    (),
    ApiError,
>)
    requires
        old(db).wf(),
    ensures
        final (db).wf(),
        ({
            let found = has_user(old(db)@.users, user_id@);
            let pair = user_wishes_record(old(db)@.user_wishlist, user_id@, body.record_id@);
            &&& !found ==> (r matches Err(e) && e matches ApiError::NotFound { message }
                && message@ == "user_id "@ + user_id@ + " not found"@) && final (db)@ == old(db)@
            &&& found && !pair ==> (r matches Err(e) && e matches ApiError::NotFound { message }
                && message@ == "No wish_lists record found for user_id: "@ + user_id@
                + " with record_id: "@ + body.record_id@) && final (db)@ == old(db)@
            &&& found && pair ==> r is Ok && final (db)@ == DbV {
                user_wishlist: old(db)@.user_wishlist.filter(
                    uw_not_pair(user_id@, body.record_id@),
                ),
                ..old(db)@
            }
        }),
{
    let u_idx = match find_user(&db.users, user_id) {
        Some(i) => i,
        None => {
            return Err(
                ApiError::NotFound { message: concat3("user_id ", user_id, " not found") },
            );
        },
    };
    proof {
        assert(user_id_key()(db@.users[u_idx as int]) == user_id@);
    }
    let ghost links0 = db@.user_wishlist;
    let before = db.user_wishlist.len();
    retain_wishlist_not_pair(&mut db.user_wishlist, user_id, body.record_id.as_str());
    let after = db.user_wishlist.len();
    proof {
        if user_wishes_record(links0, user_id@, body.record_id@) {
            let i = choose|i: int|
                0 <= i < links0.len() && uw_pair_key()(#[trigger] links0[i]) == (
                    user_id@,
                    body.record_id@,
                );
            assert(!uw_not_pair(user_id@, body.record_id@)(links0[i]));
            lemma_filter_shorter(links0, uw_not_pair(user_id@, body.record_id@), i);
        } else {
            assert forall|i: int| 0 <= i < links0.len() implies uw_not_pair(
                user_id@,
                body.record_id@,
            )(#[trigger] links0[i]) by {
                if links0[i].user_id == user_id@ && links0[i].record_id == body.record_id@ {
                    assert(uw_pair_key()(links0[i]) == (user_id@, body.record_id@));
                }
            }
            lemma_filter_all(links0, uw_not_pair(user_id@, body.record_id@));
        }
        lemma_wf_filter_uw(old(db)@, uw_not_pair(user_id@, body.record_id@));
        assert(db@ == DbV {
            user_wishlist: old(db)@.user_wishlist.filter(
                uw_not_pair(user_id@, body.record_id@),
            ),
            ..old(db)@
        });
    }
    if after == before {
        proof {
            assert(db@ == old(db)@);
        }
        return Err(
            ApiError::NotFound {
                message: concat4(
                    "No wish_lists record found for user_id: ",
                    user_id,
                    " with record_id: ",
                    body.record_id.as_str(),
                ),
            },
        );
    }
    Ok(())
}

/// Clears a user's whole wishlist: not-found when the user had no
/// wishlist rows, no content otherwise.
pub fn remove_user_wishlist(db: &mut Db, user_id: &str) -> (r: Result<(), ApiError>)
    requires
        old(db).wf(),
    ensures
        final (db).wf(),
        ({
            let any = exists_key(old(db)@.user_wishlist, uw_user_key(), user_id@);
            &&& !any ==> (r matches Err(e) && e matches ApiError::NotFound { message } && message@
                == "no records found for user id: "@ + user_id@) && final (db)@ == old(db)@
            &&& any ==> r is Ok && final (db)@ == DbV {
                user_wishlist: old(db)@.user_wishlist.filter(uw_not_user(user_id@)),
                ..old(db)@
            }
        }),
{
    let ghost links0 = db@.user_wishlist;
    let before = db.user_wishlist.len();
    retain_wishlist_not_user(&mut db.user_wishlist, user_id);
    let after = db.user_wishlist.len();
    proof {
        if exists_key(links0, uw_user_key(), user_id@) {
            let i = choose|i: int|
                0 <= i < links0.len() && uw_user_key()(#[trigger] links0[i]) == user_id@;
            assert(!uw_not_user(user_id@)(links0[i]));
            lemma_filter_shorter(links0, uw_not_user(user_id@), i);
        } else {
            assert forall|i: int| 0 <= i < links0.len() implies uw_not_user(user_id@)(
                #[trigger] links0[i],
            ) by {
                if links0[i].user_id == user_id@ {
                    assert(uw_user_key()(links0[i]) == user_id@);
                }
            }
            lemma_filter_all(links0, uw_not_user(user_id@));
        }
        lemma_wf_filter_uw(old(db)@, uw_not_user(user_id@));
        assert(db@ == DbV {
            user_wishlist: old(db)@.user_wishlist.filter(uw_not_user(user_id@)),
            ..old(db)@
        });
    }
    if after == before {
        proof {
            assert(db@ == old(db)@);
        }
        return Err(
            ApiError::NotFound {
                message: concat2("no records found for user id: ", user_id),
            },
        );
    }
    Ok(())
}

} // verus!
