use vstd::prelude::*;
use vstd::string::*;

use crate::db::{
    collect_user_stores, find_store, find_user, has_store, has_store_tuple, has_user,
    sort_stores_by_name, store_name_leq,
    lemma_store_with_id_is, lemma_wf_delete_store, lemma_wf_filter_us, lemma_wf_push_store,
    lemma_wf_push_us, lemma_wf_update_store, retain_stores_not_id, retain_user_stores_not_pair,
    retain_user_stores_not_store, store_faved, store_id_key, store_not_id, store_tuple_taken,
    store_with_id, us_has_user, us_id_key, us_id_used, us_not_pair, us_not_store, us_pair_key,
    us_user_key, user_has_store, user_id_key, window_stores, Db, DbV, UserStoreRow, UserStoreV,
};
use crate::error::ApiError;
use crate::order::spec_sort_by;
use crate::paging::{page_window, spec_limit, spec_offset, valid_filter, window, FilterOptions};
use crate::seqs::{
    exists_key, lemma_exists_key_push, lemma_filter_all, lemma_filter_shorter, view_seq,
};
use crate::text::{concat3, concat4};

verus! {

/// A stored record-store row. The optional phone number and website are
/// held as plain strings; a store created without them holds the empty
/// string, the documented default.
pub struct RecordStoreModel {
    pub record_store_id: String,
    pub store_name: String,
    pub store_address: String,
    pub store_city: String,
    pub store_state: String,
    pub store_zip: String,
    pub phone_number: String,
    pub website: String,
}

/// The mathematical value of a stored record-store row.
pub ghost struct RecordStoreV {
    pub record_store_id: Seq<char>,
    pub store_name: Seq<char>,
    pub store_address: Seq<char>,
    pub store_city: Seq<char>,
    pub store_state: Seq<char>,
    pub store_zip: Seq<char>,
    pub phone_number: Seq<char>,
    pub website: Seq<char>,
}

impl View for RecordStoreModel {
    type V = RecordStoreV;

    open spec fn view(&self) -> RecordStoreV {
        RecordStoreV {
            record_store_id: self.record_store_id@,
            store_name: self.store_name@,
            store_address: self.store_address@,
            store_city: self.store_city@,
            store_state: self.store_state@,
            store_zip: self.store_zip@,
            phone_number: self.phone_number@,
            website: self.website@,
        }
    }
}

impl RecordStoreModel {
    /// A field-for-field copy of the row.
    pub fn duplicate(&self) -> (r: RecordStoreModel)
        ensures
            r@ == self@,
    {
        RecordStoreModel {
            record_store_id: self.record_store_id.clone(),
            store_name: self.store_name.clone(),
            store_address: self.store_address.clone(),
            store_city: self.store_city.clone(),
            store_state: self.store_state.clone(),
            store_zip: self.store_zip.clone(),
            phone_number: self.phone_number.clone(),
            website: self.website.clone(),
        }
    }
}

/// The body of a record-store create request. The tuple of name, address,
/// city, and state identifies a store; phone number and website are
/// optional and default to the empty string.
pub struct CreateRecordStoreSchema {
    pub store_name: String,
    pub store_address: String,
    pub store_city: String,
    pub store_state: String,
    pub store_zip: String,
    pub phone_number: Option<String>,
    pub website: Option<String>,
}

/// The body of a record-store update request: a partial schema where every
/// field is optional. An absent field falls back to the stored value.
pub struct UpdateRecordStoreSchema {
    pub store_name: Option<String>,
    pub store_address: Option<String>,
    pub store_city: Option<String>,
    pub store_state: Option<String>,
    pub store_zip: Option<String>,
    pub phone_number: Option<String>,
    pub website: Option<String>,
}

/// The body of an attach-existing-store request.
pub struct PutRecordStoreSchema {
    pub record_store_id: String,
}

/// The body of a detach-store request.
pub struct PatchRecordStoreSchema {
    pub record_store_id: String,
}


/// The row a store create request stores: the body's fields under the
/// generated identifier, with the empty string for an absent phone number
/// or website.
pub open spec fn spec_new_store(body: CreateRecordStoreSchema, id: Seq<char>) -> RecordStoreV {
    RecordStoreV {
        record_store_id: id,
        store_name: body.store_name@,
        store_address: body.store_address@,
        store_city: body.store_city@,
        store_state: body.store_state@,
        store_zip: body.store_zip@,
        phone_number: match body.phone_number {
            Some(p) => p@,
            None => ""@,
        },
        website: match body.website {
            Some(w) => w@,
            None => ""@,
        },
    }
}

/// The patch-merge of an update body over a stored record store: each
/// supplied field replaces the stored value, each absent field keeps it;
/// the identifier never changes.
pub open spec fn spec_merge_store(s: RecordStoreV, body: UpdateRecordStoreSchema) -> RecordStoreV {
    RecordStoreV {
        record_store_id: s.record_store_id,
        store_name: match body.store_name {
            Some(n) => n@,
            None => s.store_name,
        },
        store_address: match body.store_address {
            Some(a) => a@,
            None => s.store_address,
        },
        store_city: match body.store_city {
            Some(c) => c@,
            None => s.store_city,
        },
        store_state: match body.store_state {
            Some(t) => t@,
            None => s.store_state,
        },
        store_zip: match body.store_zip {
            Some(z) => z@,
            None => s.store_zip,
        },
        phone_number: match body.phone_number {
            Some(p) => p@,
            None => s.phone_number,
        },
        website: match body.website {
            Some(w) => w@,
            None => s.website,
        },
    }
}

/// Builds the stored row for a store create request, with the empty
/// string standing in for an absent phone number or website.
pub fn build_store(body: &CreateRecordStoreSchema, id: &str) -> (r: RecordStoreModel)
    ensures
        r@ == spec_new_store(*body, id@),
{
    proof {
        reveal_strlit("");
        assert(""@ =~= Seq::<char>::empty());
    }
    RecordStoreModel {
        record_store_id: String::from_str(id),
        store_name: body.store_name.clone(),
        store_address: body.store_address.clone(),
        store_city: body.store_city.clone(),
        store_state: body.store_state.clone(),
        store_zip: body.store_zip.clone(),
        phone_number: match &body.phone_number {
            Some(p) => p.clone(),
            None => String::new(),
        },
        website: match &body.website {
            Some(w) => w.clone(),
            None => String::new(),
        },
    }
}

/// Builds the patch-merge of an update body over a stored record store.
pub fn build_merged_store(stored: &RecordStoreModel, body: &UpdateRecordStoreSchema) -> (r:
    RecordStoreModel)
    ensures
        r@ == spec_merge_store(stored@, *body),
{
    RecordStoreModel {
        record_store_id: stored.record_store_id.clone(),
        store_name: match &body.store_name {
            Some(n) => n.clone(),
            None => stored.store_name.clone(),
        },
        store_address: match &body.store_address {
            Some(a) => a.clone(),
            None => stored.store_address.clone(),
        },
        store_city: match &body.store_city {
            Some(c) => c.clone(),
            None => stored.store_city.clone(),
        },
        store_state: match &body.store_state {
            Some(t) => t.clone(),
            None => stored.store_state.clone(),
        },
        store_zip: match &body.store_zip {
            Some(z) => z.clone(),
            None => stored.store_zip.clone(),
        },
        phone_number: match &body.phone_number {
            Some(p) => p.clone(),
            None => stored.phone_number.clone(),
        },
        website: match &body.website {
            Some(w) => w.clone(),
            None => stored.website.clone(),
        },
    }
}


/// The default page size of the store list.
pub const STORES_PAGE_SIZE: usize = 10;

/// Lists a window of record stores ordered by store name: up to `limit`
/// rows (ten when unspecified), skipping `page - 1` whole pages.
pub fn list_all_stores(db: &Db, opts: &FilterOptions) -> (r: Vec<RecordStoreModel>)
    requires
        valid_filter(*opts, STORES_PAGE_SIZE),
    ensures
        view_seq(r@) == window(
            spec_sort_by(db@.record_stores, store_name_leq()),
            spec_offset(*opts, STORES_PAGE_SIZE),
            spec_limit(*opts, STORES_PAGE_SIZE),
        ),
{
    let (limit, offset) = page_window(opts, STORES_PAGE_SIZE);
    let sorted = sort_stores_by_name(&db.record_stores);
    window_stores(&sorted, offset, limit)
}

/// Creates a record store: refused with a conflict when a store with the
/// same identifying tuple (name, address, city, state) already exists; a
/// clash on the generated identifier surfaces as a store failure.
/// Otherwise the row is appended, with the empty string for an absent
/// phone number or website, and returned.
pub fn create_record_store(db: &mut Db, body: &CreateRecordStoreSchema, new_id: &str) -> (r:
    Result<RecordStoreModel, ApiError>)
    requires
        old(db).wf(),
    ensures
        final (db).wf(),
        ({
            let dup = has_store_tuple(
                old(db)@.record_stores,
                body.store_name@,
                body.store_address@,
                body.store_city@,
                body.store_state@,
            );
            let id_used = has_store(old(db)@.record_stores, new_id@);
            let row = spec_new_store(*body, new_id@);
            &&& dup ==> (r matches Err(e) && e matches ApiError::Conflict { message } && message@
                == "Record store '"@ + body.store_name@ + "' already exists."@) && final (db)@
                == old(db)@
            &&& !dup && id_used ==> (r matches Err(e) && e matches ApiError::StoreFailure { .. })
                && final (db)@ == old(db)@
            &&& !dup && !id_used ==> (r matches Ok(created) && created@ == row && final (db)@
                == DbV { record_stores: old(db)@.record_stores.push(row), ..old(db)@ })
        }),
{
    if store_tuple_taken(
        &db.record_stores,
        body.store_name.as_str(),
        body.store_address.as_str(),
        body.store_city.as_str(),
        body.store_state.as_str(),
    ) {
        return Err(
            ApiError::Conflict {
                message: concat3("Record store '", body.store_name.as_str(), "' already exists."),
            },
        );
    }
    match find_store(&db.record_stores, new_id) {
        Some(i) => {
            proof {
                assert(store_id_key()(db@.record_stores[i as int]) == new_id@);
            }
            return Err(
                ApiError::StoreFailure {
                    message: String::from_str("duplicate key value violated unique constraint"),
                },
            );
        },
        None => {},
    }
    let row = build_store(body, new_id);
    let created = row.duplicate();
    proof {
        lemma_wf_push_store(db@, row@);
    }
    let ghost db0 = db@;
    let ghost rowv = row@;
    db.record_stores.push(row);
    proof {
        assert(db@.record_stores =~= db0.record_stores.push(rowv));
        assert(db@ == DbV { record_stores: db0.record_stores.push(rowv), ..db0 });
    }
    Ok(created)
}

/// Fetches one record store by identifier, or not-found when no row
/// carries it (a malformed identifier matches no row).
pub fn find_record_store(db: &Db, id: &str) -> (r: Result<RecordStoreModel, ApiError>)
    requires
        db.wf(),
    ensures
        match r {
            Ok(store) => has_store(db@.record_stores, id@) && store@ == store_with_id(
                db@.record_stores,
                id@,
            ),
            Err(e) => !has_store(db@.record_stores, id@) && (e matches ApiError::NotFound {
                message,
            } && message@ == "record_store_id "@ + id@ + " not found"@),
        },
{
    match find_store(&db.record_stores, id) {
        Some(i) => {
            proof {
                lemma_store_with_id_is(db@.record_stores, id@, i as int);
            }
            Ok(db.record_stores[i].duplicate())
        },
        None => Err(ApiError::NotFound { message: concat3("record_store_id ", id, " not found") }),
    }
}

/// Patches a record store: fetches the stored row (not-found when
/// absent), merges every supplied field over it, and writes the whole row
/// back. A no-op patch leaves the row exactly as it was.
pub fn edit_record_store(db: &mut Db, id: &str, body: &UpdateRecordStoreSchema) -> (r: Result<
    RecordStoreModel,
    ApiError,
>)
    requires
        old(db).wf(),
    ensures
        final (db).wf(),
        ({
            let found = has_store(old(db)@.record_stores, id@);
            let merged = spec_merge_store(store_with_id(old(db)@.record_stores, id@), *body);
            &&& !found ==> (r matches Err(e) && e matches ApiError::NotFound { message }
                && message@ == "record store id: "@ + id@ + " not found"@) && final (db)@ == old(
                db,
            )@
            &&& found ==> (r matches Ok(updated) && updated@ == merged && exists|i: int|
                #![trigger old(db)@.record_stores.update(i, merged)]
                {
                    &&& 0 <= i < old(db)@.record_stores.len()
                    &&& old(db)@.record_stores[i].record_store_id == id@
                    &&& final (db)@ == DbV {
                        record_stores: old(db)@.record_stores.update(i, merged),
                        ..old(db)@
                    }
                })
        }),
{
    let i = match find_store(&db.record_stores, id) {
        Some(i) => i,
        None => {
            return Err(
                ApiError::NotFound { message: concat3("record store id: ", id, " not found") },
            );
        },
    };
    proof {
        lemma_store_with_id_is(db@.record_stores, id@, i as int);
    }
    let merged = build_merged_store(&db.record_stores[i], body);
    let updated = merged.duplicate();
    proof {
        lemma_wf_update_store(db@, i as int, merged@);
    }
    let ghost db0 = db@;
    let ghost mergedv = merged@;
    db.record_stores[i] = merged;
    proof {
        assert(db@.record_stores =~= db0.record_stores.update(i as int, mergedv));
        assert(db@ == DbV {
            record_stores: db0.record_stores.update(i as int, mergedv),
            ..db0
        });
    }
    Ok(updated)
}

/// Deletes a record store by identifier, removing the row and every
/// favourite-store row that names it: not-found when no row matches, no
/// content otherwise.
pub fn delete_record_store(db: &mut Db, id: &str) -> (r: Result<(), ApiError>)
    requires
        old(db).wf(),
    ensures
        final (db).wf(),
        ({
            let found = has_store(old(db)@.record_stores, id@);
            &&& !found ==> (r matches Err(e) && e matches ApiError::NotFound { message }
                && message@ == "record store id: "@ + id@ + " not found"@) && final (db)@ == old(
                db,
            )@
            &&& found ==> r is Ok && final (db)@ == DbV {
                record_stores: old(db)@.record_stores.filter(store_not_id(id@)),
                user_record_stores: old(db)@.user_record_stores.filter(us_not_store(id@)),
                ..old(db)@
            }
        }),
{
    let ghost stores0 = db@.record_stores;
    let before = db.record_stores.len();
    retain_stores_not_id(&mut db.record_stores, id);
    let after = db.record_stores.len();
    proof {
        if has_store(stores0, id@) {
            let i = choose|i: int|
                0 <= i < stores0.len() && store_id_key()(#[trigger] stores0[i]) == id@;
            assert(!store_not_id(id@)(stores0[i]));
            lemma_filter_shorter(stores0, store_not_id(id@), i);
        } else {
            assert forall|i: int| 0 <= i < stores0.len() implies store_not_id(id@)(
                #[trigger] stores0[i],
            ) by {
                if stores0[i].record_store_id == id@ {
                    assert(store_id_key()(stores0[i]) == id@);
                }
            }
            lemma_filter_all(stores0, store_not_id(id@));
        }
    }
    if after == before {
        proof {
            assert(db@ == old(db)@);
        }
        return Err(
            ApiError::NotFound { message: concat3("record store id: ", id, " not found") },
        );
    }
    retain_user_stores_not_store(&mut db.user_record_stores, id);
    proof {
        lemma_wf_delete_store(old(db)@, id@);
        assert(db@ == DbV {
            record_stores: old(db)@.record_stores.filter(store_not_id(id@)),
            user_record_stores: old(db)@.user_record_stores.filter(us_not_store(id@)),
            ..old(db)@
        });
    }
    Ok(())
}

/// Reads a user's favourite record stores: the user must exist; nothing
/// when they have no favourite-store rows (the empty-success response),
/// otherwise every store their favourites name, in table order.
pub fn get_user_record_stores(db: &Db, user_id: &str) -> (r: Result<
    Option<Vec<RecordStoreModel>>,
    ApiError,
>)
    requires
        db.wf(),
    ensures
        ({
            let found = has_user(db@.users, user_id@);
            &&& !found ==> (r matches Err(e) && e matches ApiError::NotFound { message }
                && message@ == "user_id "@ + user_id@ + " not found"@)
            &&& found ==> (r matches Ok(rows) && match rows {
                None => !exists_key(db@.user_record_stores, us_user_key(), user_id@),
                Some(stores) => exists_key(db@.user_record_stores, us_user_key(), user_id@)
                    && view_seq(stores@) == db@.record_stores.filter(
                    store_faved(db@.user_record_stores, user_id@),
                ),
            })
        }),
{
    match find_user(&db.users, user_id) {
        Some(i) => {
            proof {
                assert(user_id_key()(db@.users[i as int]) == user_id@);
            }
        },
        None => {
            return Err(
                ApiError::NotFound { message: concat3("user_id ", user_id, " not found") },
            );
        },
    }
    if !us_has_user(&db.user_record_stores, user_id) {
        return Ok(None);
    }
    Ok(Some(collect_user_stores(&db.record_stores, &db.user_record_stores, user_id)))
}

/// The composite payload of a successful store attach: the owner, the
/// generated join-row identifier, and the store attached.
pub struct CreatedUserStore {
    pub user_id: String,
    pub user_favorite_stores_id: String,
    pub record_store: RecordStoreModel,
}

/// Attaches an existing record store to the user's favourites: the owner
/// and the store must both exist; nothing guards against attaching the
/// same store twice. A missing owner is reported in terms of the store
/// identifier the body names.
pub fn add_existing_record_store(
    db: &mut Db,
    user_id: &str,
    body: &PutRecordStoreSchema,
    new_link_id: &str,
) -> (r: Result<CreatedUserStore, ApiError>)
    requires
        old(db).wf(),
    ensures
        final (db).wf(),
        ({
            let found = has_user(old(db)@.users, user_id@);
            let store_found = has_store(old(db)@.record_stores, body.record_store_id@);
            let link_used = exists_key(
                old(db)@.user_record_stores,
                us_id_key(),
                new_link_id@,
            );
            let link = UserStoreV {
                user_favorite_stores_id: new_link_id@,
                user_key: user_id@,
                record_store_id: body.record_store_id@,
            };
            &&& !found ==> (r matches Err(e) && e matches ApiError::NotFound { message }
                && message@ == "record_store "@ + body.record_store_id@ + " not found"@)
                && final (db)@ == old(db)@
            &&& found && !store_found ==> (r matches Err(e) && e matches ApiError::NotFound {
                message,
            } && message@ == "record_store_id: "@ + body.record_store_id@ + " not found"@)
                && final (db)@ == old(db)@
            &&& found && store_found && link_used ==> (r matches Err(e) && e matches
            ApiError::StoreFailure { .. }) && final (db)@ == old(db)@
            &&& found && store_found && !link_used ==> (r matches Ok(c) && c.user_id@ == user_id@
                && c.user_favorite_stores_id@ == new_link_id@ && c.record_store@ == store_with_id(
                old(db)@.record_stores,
                body.record_store_id@,
            ) && final (db)@ == DbV {
                user_record_stores: old(db)@.user_record_stores.push(link),
                ..old(db)@
            })
        }),
{
    let u_idx = match find_user(&db.users, user_id) {
        Some(i) => i,
        None => {
            return Err(
                ApiError::NotFound {
                    message: concat3("record_store ", body.record_store_id.as_str(), " not found"),
                },
            );
        },
    };
    proof {
        assert(user_id_key()(db@.users[u_idx as int]) == user_id@);
    }
    let s_idx = match find_store(&db.record_stores, body.record_store_id.as_str()) {
        Some(i) => i,
        None => {
            return Err(
                ApiError::NotFound {
                    message: concat3(
                        "record_store_id: ",
                        body.record_store_id.as_str(),
                        " not found",
                    ),
                },
            );
        },
    };
    proof {
        lemma_store_with_id_is(db@.record_stores, body.record_store_id@, s_idx as int);
    }
    if us_id_used(&db.user_record_stores, new_link_id) {
        return Err(
            ApiError::StoreFailure {
                message: concat4(
                    "error when collecting record for user_id: ",
                    user_id,
                    ", ",
                    "duplicate key value violated unique constraint",
                ),
            },
        );
    }
    let store_out = db.record_stores[s_idx].duplicate();
    let link = UserStoreRow {
        user_favorite_stores_id: String::from_str(new_link_id),
        user_key: String::from_str(user_id),
        record_store_id: body.record_store_id.clone(),
    };
    proof {
        assert(store_id_key()(db@.record_stores[s_idx as int]) == body.record_store_id@);
        lemma_wf_push_us(db@, link@);
    }
    let ghost db0 = db@;
    let ghost linkv = link@;
    db.user_record_stores.push(link);
    proof {
        assert(db@.user_record_stores =~= db0.user_record_stores.push(linkv));
        assert(db@ == DbV { user_record_stores: db0.user_record_stores.push(linkv), ..db0 });
    }
    Ok(
        CreatedUserStore {
            user_id: String::from_str(user_id),
            user_favorite_stores_id: String::from_str(new_link_id),
            record_store: store_out,
        },
    )
}

/// The composite payload of a create-and-attach on stores: the owner, the
/// created store's identifier as the join reference, and the store.
pub struct CreatedUserNewStore {
    pub user_id: String,
    pub user_record_store_id: String,
    pub record_store: RecordStoreModel,
}

/// Creates a record store and attaches it to the user's favourites in one
/// call sequence: the owner is verified first, the store is inserted with
/// no uniqueness pre-check, and the join row follows. When the join
/// insert fails the store stays — the preceding statement is not rolled
/// back.
pub fn add_user_record_store(
    db: &mut Db,
    user_id: &str,
    body: &CreateRecordStoreSchema,
    new_store_id: &str,
    new_link_id: &str,
) -> (r: Result<CreatedUserNewStore, ApiError>)
    requires
        old(db).wf(),
    ensures
        final (db).wf(),
        ({
            let found = has_user(old(db)@.users, user_id@);
            let store_used = has_store(old(db)@.record_stores, new_store_id@);
            let link_used = exists_key(
                old(db)@.user_record_stores,
                us_id_key(),
                new_link_id@,
            );
            let row = spec_new_store(*body, new_store_id@);
            let link = UserStoreV {
                user_favorite_stores_id: new_link_id@,
                user_key: user_id@,
                record_store_id: new_store_id@,
            };
            &&& !found ==> (r matches Err(e) && e matches ApiError::NotFound { message }
                && message@ == "user_id "@ + user_id@ + " not found"@) && final (db)@ == old(db)@
            &&& found && store_used ==> (r matches Err(e) && e matches ApiError::StoreFailure {
                ..
            }) && final (db)@ == old(db)@
            &&& found && !store_used && link_used ==> (r matches Err(e) && e matches
            ApiError::StoreFailure { .. }) && final (db)@ == DbV {
                record_stores: old(db)@.record_stores.push(row),
                ..old(db)@
            }
            &&& found && !store_used && !link_used ==> (r matches Ok(c) && c.user_id@ == user_id@
                && c.user_record_store_id@ == new_store_id@ && c.record_store@ == row
                && final (db)@ == DbV {
                record_stores: old(db)@.record_stores.push(row),
                user_record_stores: old(db)@.user_record_stores.push(link),
                ..old(db)@
            })
        }),
{
    let u_idx = match find_user(&db.users, user_id) {
        Some(i) => i,
        None => {
            return Err(
                ApiError::NotFound { message: concat3("user_id ", user_id, " not found") },
            );
        },
    };
    proof {
        assert(user_id_key()(db@.users[u_idx as int]) == user_id@);
    }
    match find_store(&db.record_stores, new_store_id) {
        Some(i) => {
            proof {
                assert(store_id_key()(db@.record_stores[i as int]) == new_store_id@);
            }
            return Err(
                ApiError::StoreFailure {
                    message: String::from_str("duplicate key value violated unique constraint"),
                },
            );
        },
        None => {},
    }
    let row = build_store(body, new_store_id);
    let store_out = row.duplicate();
    proof {
        lemma_wf_push_store(db@, row@);
    }
    let ghost db0 = db@;
    let ghost rowv = row@;
    db.record_stores.push(row);
    proof {
        assert(db@.record_stores =~= db0.record_stores.push(rowv));
        assert(db@ == DbV { record_stores: db0.record_stores.push(rowv), ..db0 });
    }
    if us_id_used(&db.user_record_stores, new_link_id) {
        return Err(
            ApiError::StoreFailure {
                message: concat4(
                    "error when creating record store for user_id: ",
                    user_id,
                    ", ",
                    "duplicate key value violated unique constraint",
                ),
            },
        );
    }
    let link = UserStoreRow {
        user_favorite_stores_id: String::from_str(new_link_id),
        user_key: String::from_str(user_id),
        record_store_id: String::from_str(new_store_id),
    };
    proof {
        assert(user_id_key()(db@.users[u_idx as int]) == user_id@);
        lemma_exists_key_push(db0.record_stores, store_id_key(), new_store_id@, rowv);
        lemma_wf_push_us(db@, link@);
    }
    let ghost db1 = db@;
    let ghost linkv = link@;
    db.user_record_stores.push(link);
    proof {
        assert(db@.user_record_stores =~= db1.user_record_stores.push(linkv));
        assert(db@ == DbV {
            record_stores: old(db)@.record_stores.push(rowv),
            user_record_stores: old(db)@.user_record_stores.push(linkv),
            ..old(db)@
        });
    }
    Ok(
        CreatedUserNewStore {
            user_id: String::from_str(user_id),
            user_record_store_id: String::from_str(new_store_id),
            record_store: store_out,
        },
    )
}

/// Detaches one record store from the user's favourites: the user must
/// exist, and exactly the join rows matching both keys are removed; when
/// none matched, not-found.
pub fn delete_user_record_store(db: &mut Db, user_id: &str, body: &PatchRecordStoreSchema) -> (r:
    Result<(), ApiError>)
    requires
        old(db).wf(),
    ensures
        final (db).wf(),
        ({
            let found = has_user(old(db)@.users, user_id@);
            let pair = user_has_store(
                old(db)@.user_record_stores,
                user_id@,
                body.record_store_id@,
            );
            &&& !found ==> (r matches Err(e) && e matches ApiError::NotFound { message }
                && message@ == "user_id "@ + user_id@ + " not found"@) && final (db)@ == old(db)@
            &&& found && !pair ==> (r matches Err(e) && e matches ApiError::NotFound { message }
                && message@ == "not record stores found for user_id: "@ + user_id@
                + " with record_store_id: "@ + body.record_store_id@) && final (db)@ == old(db)@
            &&& found && pair ==> r is Ok && final (db)@ == DbV {
                user_record_stores: old(db)@.user_record_stores.filter(
                    us_not_pair(user_id@, body.record_store_id@),
                ),
                ..old(db)@
            }
        }),
{
    let u_idx = match find_user(&db.users, user_id) {
        Some(i) => i,
        None => {
            return Err(
                ApiError::NotFound { message: concat3("user_id ", user_id, " not found") },
            );
        },
    };
    proof {
        assert(user_id_key()(db@.users[u_idx as int]) == user_id@);
    }
    let ghost links0 = db@.user_record_stores;
    let before = db.user_record_stores.len();
    retain_user_stores_not_pair(&mut db.user_record_stores, user_id, body.record_store_id.as_str());
    let after = db.user_record_stores.len();
    proof {
        if user_has_store(links0, user_id@, body.record_store_id@) {
            let i = choose|i: int|
                0 <= i < links0.len() && us_pair_key()(#[trigger] links0[i]) == (
                    user_id@,
                    body.record_store_id@,
                );
            assert(!us_not_pair(user_id@, body.record_store_id@)(links0[i]));
            lemma_filter_shorter(links0, us_not_pair(user_id@, body.record_store_id@), i);
        } else {
            assert forall|i: int| 0 <= i < links0.len() implies us_not_pair(
                user_id@,
                body.record_store_id@,
            )(#[trigger] links0[i]) by {
                if links0[i].user_key == user_id@ && links0[i].record_store_id
                    == body.record_store_id@ {
                    assert(us_pair_key()(links0[i]) == (user_id@, body.record_store_id@));
                }
            }
            lemma_filter_all(links0, us_not_pair(user_id@, body.record_store_id@));
        }
        lemma_wf_filter_us(old(db)@, us_not_pair(user_id@, body.record_store_id@));
        assert(db@ == DbV {
            user_record_stores: old(db)@.user_record_stores.filter(
                us_not_pair(user_id@, body.record_store_id@),
            ),
            ..old(db)@
        });
    }
    if after == before {
        proof {
            assert(db@ == old(db)@);
        }
        return Err(
            ApiError::NotFound {
                message: concat4(
                    "not record stores found for user_id: ",
                    user_id,
                    " with record_store_id: ",
                    body.record_store_id.as_str(),
                ),
            },
        );
    }
    Ok(())
}

} // verus!
