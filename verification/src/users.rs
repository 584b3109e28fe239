use vstd::prelude::*;
use vstd::string::*;

use crate::db::{
    collect_user_records, find_record, find_user, has_record, has_user, lemma_record_with_id_is,
    sort_users_by_name, user_name_leq,
    lemma_user_with_id_is, lemma_wf_delete_user, lemma_wf_filter_ur, lemma_wf_push_record,
    lemma_wf_push_ur, lemma_wf_push_user, lemma_wf_update_user, record_id_key, record_owned,
    record_with_id, retain_user_records_not_pair, retain_user_records_not_user,
    retain_user_stores_not_user, retain_users_not_id, retain_wishlist_not_user, ur_has_pair,
    ur_has_user, ur_id_key, ur_id_used, ur_not_pair, ur_not_user, ur_pair_key,
    ur_user_key, us_not_user, user_conflict_except, user_conflicts_except, user_id_key,
    user_name_or_email_taken, user_not_id, user_owns_record, user_taken, user_with_id, uw_not_user,
    window_user_rows, Db, DbV, UserRecordRow, UserRecordV,
};
use crate::error::ApiError;
use crate::order::spec_sort_by;
use crate::paging::{page_window, spec_limit, spec_offset, valid_filter, window, FilterOptions};
use crate::records::{build_record, spec_new_record, CreateRecordSchema, RecordModel};
use crate::seqs::{
    exists_key, lemma_exists_key_push, lemma_filter_all, lemma_filter_shorter, view_seq,
};
use crate::text::{concat2, concat3, concat4};

verus! {

/// A stored user row. The identifier is the store-generated key in its
/// textual form; the creation instant is a unix timestamp, absent for rows
/// that predate the column.
pub struct UserModel {
    pub user_id: String,
    pub user_name: String,
    pub user_first_name: String,
    pub user_last_name: String,
    pub user_email: String,
    pub user_password: String,
    pub created_at: Option<i64>,
}

/// The mathematical value of a stored user row.
pub ghost struct UserV {
    pub user_id: Seq<char>,
    pub user_name: Seq<char>,
    pub user_first_name: Seq<char>,
    pub user_last_name: Seq<char>,
    pub user_email: Seq<char>,
    pub user_password: Seq<char>,
    pub created_at: Option<i64>,
}

impl View for UserModel {
    type V = UserV;

    open spec fn view(&self) -> UserV {
        UserV {
            user_id: self.user_id@,
            user_name: self.user_name@,
            user_first_name: self.user_first_name@,
            user_last_name: self.user_last_name@,
            user_email: self.user_email@,
            user_password: self.user_password@,
            created_at: self.created_at,
        }
    }
}

impl UserModel {
    /// A field-for-field copy of the row.
    pub fn duplicate(&self) -> (r: UserModel)
        ensures
            r@ == self@,
    {
        UserModel {
            user_id: self.user_id.clone(),
            user_name: self.user_name.clone(),
            user_first_name: self.user_first_name.clone(),
            user_last_name: self.user_last_name.clone(),
            user_email: self.user_email.clone(),
            user_password: self.user_password.clone(),
            created_at: match &self.created_at {
                Some(t) => Some(*t),
                None => None,
            },
        }
    }
}

/// The shape a user takes in every response: the stored row with the
/// password field stripped.
pub struct UserResponseSchema {
    pub user_id: String,
    pub user_name: String,
    pub user_first_name: String,
    pub user_last_name: String,
    pub user_email: String,
    pub created_at: Option<i64>,
}

/// The mathematical value of a user response.
pub ghost struct UserResponseV {
    pub user_id: Seq<char>,
    pub user_name: Seq<char>,
    pub user_first_name: Seq<char>,
    pub user_last_name: Seq<char>,
    pub user_email: Seq<char>,
    pub created_at: Option<i64>,
}

impl View for UserResponseSchema {
    type V = UserResponseV;

    open spec fn view(&self) -> UserResponseV {
        UserResponseV {
            user_id: self.user_id@,
            user_name: self.user_name@,
            user_first_name: self.user_first_name@,
            user_last_name: self.user_last_name@,
            user_email: self.user_email@,
            created_at: self.created_at,
        }
    }
}

/// What a stored user looks like at every read boundary: the total mapping
/// from a row to its public shape. No response ever carries the password.
pub open spec fn spec_user_response(u: UserV) -> UserResponseV {
    UserResponseV {
        user_id: u.user_id,
        user_name: u.user_name,
        user_first_name: u.user_first_name,
        user_last_name: u.user_last_name,
        user_email: u.user_email,
        created_at: u.created_at,
    }
}

impl UserResponseSchema {
    /// Strips a stored row down to its public shape.
    pub fn of_model(user: &UserModel) -> (r: UserResponseSchema)
        ensures
            r@ == spec_user_response(user@),
    {
        UserResponseSchema {
            user_id: user.user_id.clone(),
            user_name: user.user_name.clone(),
            user_first_name: user.user_first_name.clone(),
            user_last_name: user.user_last_name.clone(),
            user_email: user.user_email.clone(),
            created_at: match &user.created_at {
                Some(t) => Some(*t),
                None => None,
            },
        }
    }
}

impl From<UserModel> for UserResponseSchema {
    /// The conversion every read boundary goes through: the stored row
    /// with the password dropped.
    fn from(user: UserModel) -> (r: Self) {
        UserResponseSchema {
            user_id: user.user_id,
            user_name: user.user_name,
            user_first_name: user.user_first_name,
            user_last_name: user.user_last_name,
            user_email: user.user_email,
            created_at: user.created_at,
        }
    }
}

impl vstd::std_specs::convert::FromSpecImpl<UserModel> for UserResponseSchema {
    open spec fn obeys_from_spec() -> bool {
        true
    }

    open spec fn from_spec(user: UserModel) -> Self {
        UserResponseSchema {
            user_id: user.user_id,
            user_name: user.user_name,
            user_first_name: user.user_first_name,
            user_last_name: user.user_last_name,
            user_email: user.user_email,
            created_at: user.created_at,
        }
    }
}

/// The body of a user create request. The password arrives in plaintext and
/// is hashed before storage.
pub struct CreateUserSchema {
    pub user_name: String,
    pub user_first_name: String,
    pub user_last_name: String,
    pub user_email: String,
    pub user_password: String,
}

/// The body of a user update request: a partial schema where every field is
/// optional. An absent field falls back to the stored value.
pub struct UpdateUserSchema {
    pub user_name: Option<String>,
    pub user_first_name: Option<String>,
    pub user_last_name: Option<String>,
    pub user_email: Option<String>,
    pub user_password: Option<String>,
}

/// The body of an attach-existing-record request.
pub struct PutUserRecord {
    pub record_id: String,
}

/// The body of a detach-record request.
pub struct PatchUserRecord {
    pub record_id: String,
}


/// The public shape of every user in a sequence, in order.
pub open spec fn user_responses(users: Seq<UserV>) -> Seq<UserResponseV> {
    users.map_values(|u: UserV| spec_user_response(u))
}

/// The row a create request stores: the body's fields, the generated
/// identifier, the password hash, and the creation instant.
pub open spec fn spec_new_user(
    body: CreateUserSchema,
    id: Seq<char>,
    hash: Seq<char>,
    now: i64,
) -> UserV {
    UserV {
        user_id: id,
        user_name: body.user_name@,
        user_first_name: body.user_first_name@,
        user_last_name: body.user_last_name@,
        user_email: body.user_email@,
        user_password: hash,
        created_at: Some(now),
    }
}

/// The view of an optional string: the character sequence when present.
pub open spec fn opt_str_view(o: Option<String>) -> Option<Seq<char>> {
    match o {
        Some(s) => Some(s@),
        None => None,
    }
}

/// The patch-merge of an update body over a stored row: each supplied
/// field replaces the stored value, each absent field keeps it. The
/// password changes only when a new one was supplied (and arrives here
/// already hashed); the identifier and the creation instant never change.
pub open spec fn spec_merge_user(
    u: UserV,
    body: UpdateUserSchema,
    hash: Option<Seq<char>>,
) -> UserV {
    UserV {
        user_id: u.user_id,
        user_name: match body.user_name {
            Some(n) => n@,
            None => u.user_name,
        },
        user_first_name: match body.user_first_name {
            Some(n) => n@,
            None => u.user_first_name,
        },
        user_last_name: match body.user_last_name {
            Some(n) => n@,
            None => u.user_last_name,
        },
        user_email: match body.user_email {
            Some(n) => n@,
            None => u.user_email,
        },
        user_password: match hash {
            Some(h) => h,
            None => u.user_password,
        },
        created_at: u.created_at,
    }
}

/// The default page size of the user list.
pub const USERS_PAGE_SIZE: usize = 5;

/// Lists a window of users ordered by user name, each stripped to its
/// public shape: up to `limit` rows (five when unspecified), skipping
/// `page - 1` whole pages.
pub fn list_all_users(db: &Db, opts: &FilterOptions) -> (r: Vec<UserResponseSchema>)
    requires
        valid_filter(*opts, USERS_PAGE_SIZE),
    ensures
        view_seq(r@) == user_responses(
            window(
                spec_sort_by(db@.users, user_name_leq()),
                spec_offset(*opts, USERS_PAGE_SIZE),
                spec_limit(*opts, USERS_PAGE_SIZE),
            ),
        ),
{
    let (limit, offset) = page_window(opts, USERS_PAGE_SIZE);
    let sorted = sort_users_by_name(&db.users);
    let rows = window_user_rows(&sorted, offset, limit);
    let mut out: Vec<UserResponseSchema> = Vec::new();
    let n = rows.len();
    let mut i: usize = 0;
    while i < n
        invariant
            i <= n,
            n == rows.len(),
            out.len() == i,
            forall|k: int|
                0 <= k < i ==> view_seq(out@)[k] == spec_user_response(view_seq(rows@)[k]),
        decreases n - i,
    {
        let ghost out0 = out@;
        out.push(UserResponseSchema::of_model(&rows[i]));
        proof {
            assert(view_seq(out@) =~= view_seq(out0).push(spec_user_response(rows@[i as int]@)));
        }
        i += 1;
    }
    proof {
        assert(view_seq(out@) =~= user_responses(
            window(
                spec_sort_by(db@.users, user_name_leq()),
                spec_offset(*opts, USERS_PAGE_SIZE),
                spec_limit(*opts, USERS_PAGE_SIZE),
            ),
        ));
    }
    out
}

/// Fetches one user by identifier: the stored row stripped to its public
/// shape, or not-found when no row carries the identifier (a malformed
/// identifier matches no row).
pub fn find_specific_user(db: &Db, id: &str) -> (r: Result<UserResponseSchema, ApiError>)
    requires
        db.wf(),
    ensures
        match r {
            Ok(resp) => has_user(db@.users, id@) && resp@ == spec_user_response(
                user_with_id(db@.users, id@),
            ),
            Err(e) => !has_user(db@.users, id@) && (e matches ApiError::NotFound { message }
                && message@ == "user_id "@ + id@ + " not found"@),
        },
{
    match find_user(&db.users, id) {
        Some(i) => {
            proof {
                lemma_user_with_id_is(db@.users, id@, i as int);
            }
            Ok(UserResponseSchema::of_model(&db.users[i]))
        },
        None => Err(ApiError::NotFound { message: concat3("user_id ", id, " not found") }),
    }
}

/// The deterministic core of user creation, taking the already-hashed
/// password beside the generated identifier: refused with a conflict when
/// the name, the email, or the identifier is already present, otherwise
/// the new row is appended and returned in its public shape.
pub fn create_user_with_hash(
    db: &mut Db,
    body: &CreateUserSchema,
    password_hash: &str,
    new_id: &str,
    now: i64,
) -> (r: Result<UserResponseSchema, ApiError>)
    requires
        old(db).wf(),
    ensures
        final (db).wf(),
        ({
            let dup = user_taken(old(db)@.users, body.user_name@, body.user_email@) || has_user(
                old(db)@.users,
                new_id@,
            );
            let row = spec_new_user(*body, new_id@, password_hash@, now);
            &&& dup ==> (r matches Err(e) && e matches ApiError::Conflict { message } && message@
                == "user_name "@ + body.user_name@ + " already exists"@) && final (db)@ == old(
                db,
            )@
            &&& !dup ==> (r matches Ok(resp) && resp@ == spec_user_response(row)
                && final (db)@ == DbV { users: old(db)@.users.push(row), ..old(db)@ })
        }),
{
    let dup = user_name_or_email_taken(
        &db.users,
        body.user_name.as_str(),
        body.user_email.as_str(),
    );
    let id_used = match find_user(&db.users, new_id) {
        Some(i) => {
            proof {
                assert(user_id_key()(db@.users[i as int]) == new_id@);
            }
            true
        },
        None => false,
    };
    if dup || id_used {
        let message = concat3("user_name ", body.user_name.as_str(), " already exists");
        return Err(ApiError::Conflict { message });
    }
    let row = UserModel {
        user_id: String::from_str(new_id),
        user_name: body.user_name.clone(),
        user_first_name: body.user_first_name.clone(),
        user_last_name: body.user_last_name.clone(),
        user_email: body.user_email.clone(),
        user_password: String::from_str(password_hash),
        created_at: Some(now),
    };
    let resp = UserResponseSchema::of_model(&row);
    proof {
        assert(row@ == spec_new_user(*body, new_id@, password_hash@, now));
        lemma_wf_push_user(db@, row@);
    }
    let ghost db0 = db@;
    let ghost rowv = row@;
    db.users.push(row);
    proof {
        assert(db@.users =~= db0.users.push(rowv));
        assert(db@ == DbV { users: db0.users.push(rowv), ..db0 });
    }
    Ok(resp)
}

/// Creates a user: hashes the supplied plaintext password through the
/// outside call, then stores the row under the generated identifier.
/// Whatever hash came back, a taken name, email, or identifier is refused
/// with a conflict and the store is left unchanged; a hashing failure
/// surfaces as a store failure.
pub fn create_user(db: &mut Db, body: &CreateUserSchema, new_id: &str, now: i64) -> (r: Result<
    UserResponseSchema,
    ApiError,
>)
    requires
        old(db).wf(),
    ensures
        final (db).wf(),
        ({
            let dup = user_taken(old(db)@.users, body.user_name@, body.user_email@) || has_user(
                old(db)@.users,
                new_id@,
            );
            &&& r is Err ==> final (db)@ == old(db)@
            &&& r matches Err(e) ==> (e matches ApiError::Conflict { message } && message@
                == "user_name "@ + body.user_name@ + " already exists"@) || (e matches
            ApiError::StoreFailure { .. })
            &&& dup ==> r is Err
            &&& r matches Ok(resp) ==> !dup && (exists|hash: Seq<char>|
                #![trigger spec_new_user(*body, new_id@, hash, now)]
                {
                    let row = spec_new_user(*body, new_id@, hash, now);
                    resp@ == spec_user_response(row) && final (db)@ == DbV {
                        users: old(db)@.users.push(row),
                        ..old(db)@
                    }
                })
        }),
{
    match crate::outside::bcrypt_hash(body.user_password.as_str()) {
        Ok(hash) => {
            let r = create_user_with_hash(db, body, hash.as_str(), new_id, now);
            proof {
                if r is Ok {
                    let row = spec_new_user(*body, new_id@, hash@, now);
                    assert(r->Ok_0@ == spec_user_response(row) && db@ == DbV {
                        users: old(db)@.users.push(row),
                        ..old(db)@
                    });
                }
            }
            r
        },
        Err(detail) => Err(ApiError::StoreFailure { message: detail }),
    }
}

/// The deterministic core of the user patch, taking the hash of the newly
/// supplied password when there is one: the stored row is fetched
/// (not-found when absent), every supplied field is merged over it, and
/// the whole row is written back. A merged name or email that another
/// user already holds surfaces as a store failure, as the underlying
/// unique index raises it.
pub fn edit_user_with_hash(
    db: &mut Db,
    id: &str,
    body: &UpdateUserSchema,
    new_hash: &Option<String>,
) -> (r: Result<UserResponseSchema, ApiError>)
    requires
        old(db).wf(),
        (body.user_password is Some) == (new_hash is Some),
    ensures
        final (db).wf(),
        ({
            let found = has_user(old(db)@.users, id@);
            let merged = spec_merge_user(
                user_with_id(old(db)@.users, id@),
                *body,
                opt_str_view(*new_hash),
            );
            let clash = user_conflict_except(
                old(db)@.users,
                merged.user_name,
                merged.user_email,
                merged.user_id,
            );
            &&& !found ==> (r matches Err(e) && e matches ApiError::NotFound { message }
                && message@ == "user id: "@ + id@ + " not found"@) && final (db)@ == old(db)@
            &&& found && clash ==> (r matches Err(e) && e matches ApiError::StoreFailure { .. })
                && final (db)@ == old(db)@
            &&& found && !clash ==> (r matches Ok(resp) && resp@ == spec_user_response(merged)
                && exists|i: int|
                #![trigger old(db)@.users.update(i, merged)]
                {
                    &&& 0 <= i < old(db)@.users.len()
                    &&& old(db)@.users[i].user_id == id@
                    &&& final (db)@ == DbV { users: old(db)@.users.update(i, merged), ..old(db)@ }
                })
        }),
{
    let i = match find_user(&db.users, id) {
        Some(i) => i,
        None => {
            return Err(ApiError::NotFound { message: concat3("user id: ", id, " not found") });
        },
    };
    proof {
        lemma_user_with_id_is(db@.users, id@, i as int);
    }
    let stored = db.users[i].duplicate();
    let merged = UserModel {
        user_id: stored.user_id,
        user_name: match &body.user_name {
            Some(n) => n.clone(),
            None => stored.user_name,
        },
        user_first_name: match &body.user_first_name {
            Some(n) => n.clone(),
            None => stored.user_first_name,
        },
        user_last_name: match &body.user_last_name {
            Some(n) => n.clone(),
            None => stored.user_last_name,
        },
        user_email: match &body.user_email {
            Some(n) => n.clone(),
            None => stored.user_email,
        },
        user_password: match new_hash {
            Some(h) => h.clone(),
            None => stored.user_password,
        },
        created_at: stored.created_at,
    };
    if user_conflicts_except(
        &db.users,
        merged.user_name.as_str(),
        merged.user_email.as_str(),
        merged.user_id.as_str(),
    ) {
        return Err(
            ApiError::StoreFailure {
                message: String::from_str("duplicate key value violated unique constraint"),
            },
        );
    }
    let resp = UserResponseSchema::of_model(&merged);
    proof {
        lemma_wf_update_user(db@, i as int, merged@);
    }
    let ghost db0 = db@;
    let ghost mergedv = merged@;
    db.users[i] = merged;
    proof {
        assert(db@.users =~= db0.users.update(i as int, mergedv));
        assert(db@ == DbV { users: db0.users.update(i as int, mergedv), ..db0 });
    }
    Ok(resp)
}

/// Patches a user: fetches the stored row, merges every supplied field
/// over it, re-hashing the password only when a new one was supplied, and
/// writes the whole row back. A no-op patch (every field absent) leaves
/// the row exactly as it was.
pub fn edit_user(db: &mut Db, id: &str, body: &UpdateUserSchema) -> (r: Result<
    UserResponseSchema,
    ApiError,
>)
    requires
        old(db).wf(),
    ensures
        final (db).wf(),
        ({
            let found = has_user(old(db)@.users, id@);
            let merged0 = spec_merge_user(user_with_id(old(db)@.users, id@), *body, None);
            let clash = user_conflict_except(
                old(db)@.users,
                merged0.user_name,
                merged0.user_email,
                merged0.user_id,
            );
            &&& !found ==> (r matches Err(e) && e matches ApiError::NotFound { message }
                && message@ == "user id: "@ + id@ + " not found"@) && final (db)@ == old(db)@
            &&& r is Err ==> final (db)@ == old(db)@
            &&& found && clash ==> r is Err
            &&& found && !clash && body.user_password is None ==> r is Ok
            &&& r matches Ok(resp) ==> found && !clash && (exists|hash: Option<Seq<char>>|
                #![trigger spec_merge_user(user_with_id(old(db)@.users, id@), *body, hash)]
                {
                    let merged = spec_merge_user(user_with_id(old(db)@.users, id@), *body, hash);
                    &&& (hash is Some) == (body.user_password is Some)
                    &&& resp@ == spec_user_response(merged)
                    &&& (exists|i: int|
                        #![trigger old(db)@.users.update(i, merged)]
                        {
                            &&& 0 <= i < old(db)@.users.len()
                            &&& old(db)@.users[i].user_id == id@
                            &&& final (db)@ == DbV {
                                users: old(db)@.users.update(i, merged),
                                ..old(db)@
                            }
                        })
                })
        }),
{
    match find_user(&db.users, id) {
        Some(i) => {
            proof {
                assert(user_id_key()(db@.users[i as int]) == id@);
            }
        },
        None => {
            return Err(ApiError::NotFound { message: concat3("user id: ", id, " not found") });
        },
    }
    let new_hash: Option<String> = match &body.user_password {
        Some(pw) => {
            match crate::outside::bcrypt_hash(pw.as_str()) {
                Ok(h) => Some(h),
                Err(detail) => {
                    return Err(ApiError::StoreFailure { message: detail });
                },
            }
        },
        None => None,
    };
    let r = edit_user_with_hash(db, id, body, &new_hash);
    proof {
        let found = has_user(old(db)@.users, id@);
        if found && r is Ok {
            let hash = opt_str_view(new_hash);
            let merged = spec_merge_user(user_with_id(old(db)@.users, id@), *body, hash);
            assert((hash is Some) == (body.user_password is Some));
            assert(r->Ok_0@ == spec_user_response(merged));
        }
    }
    r
}

/// Deletes a user by identifier, removing the row and every association
/// row that names them: not-found when no row matches, no content
/// otherwise.
pub fn delete_user(db: &mut Db, id: &str) -> (r: Result<(), ApiError>)
    requires
        old(db).wf(),
    ensures
        final (db).wf(),
        ({
            let found = has_user(old(db)@.users, id@);
            &&& !found ==> (r matches Err(e) && e matches ApiError::NotFound { message }
                && message@ == "user id: "@ + id@ + " not found"@) && final (db)@ == old(db)@
            &&& found ==> r is Ok && final (db)@ == DbV {
                users: old(db)@.users.filter(user_not_id(id@)),
                user_records: old(db)@.user_records.filter(ur_not_user(id@)),
                user_record_stores: old(db)@.user_record_stores.filter(us_not_user(id@)),
                user_wishlist: old(db)@.user_wishlist.filter(uw_not_user(id@)),
                ..old(db)@
            }
        }),
{
    let ghost users0 = db@.users;
    let before = db.users.len();
    retain_users_not_id(&mut db.users, id);
    let after = db.users.len();
    proof {
        if has_user(users0, id@) {
            let i = choose|i: int|
                0 <= i < users0.len() && user_id_key()(#[trigger] users0[i]) == id@;
            assert(!user_not_id(id@)(users0[i]));
            lemma_filter_shorter(users0, user_not_id(id@), i);
        } else {
            assert forall|i: int| 0 <= i < users0.len() implies user_not_id(id@)(
                #[trigger] users0[i],
            ) by {
                if users0[i].user_id == id@ {
                    assert(user_id_key()(users0[i]) == id@);
                }
            }
            lemma_filter_all(users0, user_not_id(id@));
        }
    }
    if after == before {
        proof {
            assert(db@ == old(db)@);
        }
        return Err(ApiError::NotFound { message: concat3("user id: ", id, " not found") });
    }
    retain_user_records_not_user(&mut db.user_records, id);
    retain_user_stores_not_user(&mut db.user_record_stores, id);
    retain_wishlist_not_user(&mut db.user_wishlist, id);
    proof {
        lemma_wf_delete_user(old(db)@, id@);
        assert(db@ == DbV {
            users: old(db)@.users.filter(user_not_id(id@)),
            user_records: old(db)@.user_records.filter(ur_not_user(id@)),
            user_record_stores: old(db)@.user_record_stores.filter(us_not_user(id@)),
            user_wishlist: old(db)@.user_wishlist.filter(uw_not_user(id@)),
            ..old(db)@
        });
    }
    Ok(())
}

/// Reads a user's record collection: the owner must exist; nothing when
/// they have no collection rows (the empty-success response), otherwise
/// every record their collection names, in table order.
pub fn get_user_records(db: &Db, user_id: &str) -> (r: Result<Option<Vec<RecordModel>>, ApiError>)
    requires
        db.wf(),
    ensures
        ({
            let found = has_user(db@.users, user_id@);
            &&& !found ==> (r matches Err(e) && e matches ApiError::NotFound { message }
                && message@ == "user_id "@ + user_id@ + " not found"@)
            &&& found ==> (r matches Ok(rows) && match rows {
                None => !exists_key(db@.user_records, ur_user_key(), user_id@),
                Some(rows) => exists_key(db@.user_records, ur_user_key(), user_id@) && view_seq(
                    rows@,
                ) == db@.records.filter(record_owned(db@.user_records, user_id@)),
            })
        }),
{
    match find_user(&db.users, user_id) {
        Some(i) => {
            proof {
                assert(user_id_key()(db@.users[i as int]) == user_id@);
            }
        },
        None => {
            return Err(
                ApiError::NotFound { message: concat3("user_id ", user_id, " not found") },
            );
        },
    }
    if !ur_has_user(&db.user_records, user_id) {
        return Ok(None);
    }
    Ok(Some(collect_user_records(&db.records, &db.user_records, user_id)))
}

/// The composite payload of a successful attach: the owner, the generated
/// join-row identifier, and the record attached.
pub struct CreatedUserRecord {
    pub user_id: String,
    pub user_record_id: String,
    pub record: RecordModel,
}

/// Creates a record and attaches it to the user's collection in one call
/// sequence: the owner is verified first, the record is stored with its
/// defaults filled, and the join row follows. Records carry no uniqueness
/// invariant, so a record insert the store refuses surfaces as a store
/// failure with its diagnostic detail; when the join insert fails the
/// record stays — the preceding statement is not rolled back.
pub fn create_user_record(
    db: &mut Db,
    user_id: &str,
    body: &CreateRecordSchema,
    new_record_id: &str,
    new_link_id: &str,
) -> (r: Result<CreatedUserRecord, ApiError>)
    requires
        old(db).wf(),
    ensures
        final (db).wf(),
        ({
            let found = has_user(old(db)@.users, user_id@);
            let rec_used = has_record(old(db)@.records, new_record_id@);
            let link_used = exists_key(old(db)@.user_records, ur_id_key(), new_link_id@);
            let row = spec_new_record(*body, new_record_id@);
            let link = UserRecordV {
                user_record_id: new_link_id@,
                user_id: user_id@,
                record_id: new_record_id@,
            };
            &&& !found ==> (r matches Err(e) && e matches ApiError::NotFound { message }
                && message@ == "user_id "@ + user_id@ + " not found"@) && final (db)@ == old(db)@
            &&& found && rec_used ==> (r matches Err(e) && e matches ApiError::StoreFailure {
                ..
            }) && final (db)@ == old(db)@
            &&& found && !rec_used && link_used ==> (r matches Err(e) && e matches
            ApiError::StoreFailure { .. }) && final (db)@ == DbV {
                records: old(db)@.records.push(row),
                ..old(db)@
            }
            &&& found && !rec_used && !link_used ==> (r matches Ok(c) && c.user_id@ == user_id@
                && c.user_record_id@ == new_link_id@ && c.record@ == row && final (db)@ == DbV {
                records: old(db)@.records.push(row),
                user_records: old(db)@.user_records.push(link),
                ..old(db)@
            })
        }),
{
    let u_idx = match find_user(&db.users, user_id) {
        Some(i) => i,
        None => {
            return Err(
                ApiError::NotFound { message: concat3("user_id ", user_id, " not found") },
            );
        },
    };
    proof {
        assert(user_id_key()(db@.users[u_idx as int]) == user_id@);
    }
    match find_record(&db.records, new_record_id) {
        Some(i) => {
            proof {
                assert(record_id_key()(db@.records[i as int]) == new_record_id@);
            }
            return Err(
                ApiError::StoreFailure {
                    message: String::from_str("duplicate key value violated unique constraint"),
                },
            );
        },
        None => {},
    };
    let record = build_record(body, new_record_id);
    let record_out = record.duplicate();
    proof {
        lemma_wf_push_record(db@, record@);
    }
    let ghost db0 = db@;
    let ghost rowv = record@;
    db.records.push(record);
    proof {
        assert(db@.records =~= db0.records.push(rowv));
        assert(db@ == DbV { records: db0.records.push(rowv), ..db0 });
    }
    if ur_id_used(&db.user_records, new_link_id) {
        return Err(
            ApiError::StoreFailure {
                message: concat4(
                    "error when collecting records for user_id: ",
                    user_id,
                    ", ",
                    "duplicate key value violated unique constraint",
                ),
            },
        );
    }
    let link = UserRecordRow {
        user_record_id: String::from_str(new_link_id),
        user_id: String::from_str(user_id),
        record_id: String::from_str(new_record_id),
    };
    proof {
        assert(user_id_key()(db@.users[u_idx as int]) == user_id@);
        lemma_exists_key_push(db0.records, record_id_key(), new_record_id@, rowv);
        lemma_wf_push_ur(db@, link@);
    }
    let ghost db1 = db@;
    let ghost linkv = link@;
    db.user_records.push(link);
    proof {
        assert(db@.user_records =~= db1.user_records.push(linkv));
        assert(db@ == DbV {
            records: old(db)@.records.push(rowv),
            user_records: old(db)@.user_records.push(linkv),
            ..old(db)@
        });
    }
    Ok(
        CreatedUserRecord {
            user_id: String::from_str(user_id),
            user_record_id: String::from_str(new_link_id),
            record: record_out,
        },
    )
}

/// Attaches an existing record to the user's collection: the owner and the
/// record must both exist, and a record already in this user's collection
/// is refused as a duplicate attachment. A missing owner is reported in
/// terms of the record identifier the body names.
pub fn put_user_record(db: &mut Db, user_id: &str, body: &PutUserRecord, new_link_id: &str) -> (r:
    Result<CreatedUserRecord, ApiError>)
    requires
        old(db).wf(),
    ensures
        final (db).wf(),
        ({
            let found = has_user(old(db)@.users, user_id@);
            let rec_found = has_record(old(db)@.records, body.record_id@);
            let collected = user_owns_record(old(db)@.user_records, user_id@, body.record_id@);
            let link_used = exists_key(old(db)@.user_records, ur_id_key(), new_link_id@);
            let link = UserRecordV {
                user_record_id: new_link_id@,
                user_id: user_id@,
                record_id: body.record_id@,
            };
            &&& !found ==> (r matches Err(e) && e matches ApiError::NotFound { message }
                && message@ == "user_id: "@ + body.record_id@ + " not found"@) && final (db)@
                == old(db)@
            &&& found && !rec_found ==> (r matches Err(e) && e matches ApiError::NotFound {
                message,
            } && message@ == "record_id: "@ + body.record_id@ + " not found"@) && final (db)@
                == old(db)@
            &&& found && rec_found && collected ==> (r matches Err(e) && e matches
            ApiError::Conflict { message } && message@ == "record_id: "@ + body.record_id@
                + " already in collection"@) && final (db)@ == old(db)@
            &&& found && rec_found && !collected && link_used ==> (r matches Err(e) && e matches
            ApiError::StoreFailure { .. }) && final (db)@ == old(db)@
            &&& found && rec_found && !collected && !link_used ==> (r matches Ok(c)
                && c.user_id@ == user_id@ && c.user_record_id@ == new_link_id@ && c.record@
                == record_with_id(old(db)@.records, body.record_id@) && final (db)@ == DbV {
                user_records: old(db)@.user_records.push(link),
                ..old(db)@
            })
        }),
{
    let u_idx = match find_user(&db.users, user_id) {
        Some(i) => i,
        None => {
            return Err(
                ApiError::NotFound {
                    message: concat3("user_id: ", body.record_id.as_str(), " not found"),
                },
            );
        },
    };
    proof {
        assert(user_id_key()(db@.users[u_idx as int]) == user_id@);
    }
    let r_idx = match find_record(&db.records, body.record_id.as_str()) {
        Some(i) => i,
        None => {
            return Err(
                ApiError::NotFound {
                    message: concat3("record_id: ", body.record_id.as_str(), " not found"),
                },
            );
        },
    };
    proof {
        lemma_record_with_id_is(db@.records, body.record_id@, r_idx as int);
    }
    if ur_has_pair(&db.user_records, user_id, body.record_id.as_str()) {
        return Err(
            ApiError::Conflict {
                message: concat3("record_id: ", body.record_id.as_str(), " already in collection"),
            },
        );
    }
    if ur_id_used(&db.user_records, new_link_id) {
        return Err(
            ApiError::StoreFailure {
                message: concat4(
                    "error when collecting records for user_id: ",
                    user_id,
                    ", ",
                    "duplicate key value violated unique constraint",
                ),
            },
        );
    }
    let record_out = db.records[r_idx].duplicate();
    let link = UserRecordRow {
        user_record_id: String::from_str(new_link_id),
        user_id: String::from_str(user_id),
        record_id: body.record_id.clone(),
    };
    proof {
        assert(record_id_key()(db@.records[r_idx as int]) == body.record_id@);
        lemma_wf_push_ur(db@, link@);
    }
    let ghost db0 = db@;
    let ghost linkv = link@;
    db.user_records.push(link);
    proof {
        assert(db@.user_records =~= db0.user_records.push(linkv));
        assert(db@ == DbV { user_records: db0.user_records.push(linkv), ..db0 });
    }
    Ok(
        CreatedUserRecord {
            user_id: String::from_str(user_id),
            user_record_id: String::from_str(new_link_id),
            record: record_out,
        },
    )
}

/// Clears a user's whole record collection: not-found when the user had
/// no collection rows, no content otherwise.
pub fn remove_all_user_records(db: &mut Db, id: &str) -> (r: Result<(), ApiError>)
    requires
        old(db).wf(),
    ensures
        final (db).wf(),
        ({
            let any = exists_key(old(db)@.user_records, ur_user_key(), id@);
            &&& !any ==> (r matches Err(e) && e matches ApiError::NotFound { message } && message@
                == "no records found for user id: "@ + id@) && final (db)@ == old(db)@
            &&& any ==> r is Ok && final (db)@ == DbV {
                user_records: old(db)@.user_records.filter(ur_not_user(id@)),
                ..old(db)@
            }
        }),
{
    let ghost links0 = db@.user_records;
    let before = db.user_records.len();
    retain_user_records_not_user(&mut db.user_records, id);
    let after = db.user_records.len();
    proof {
        if exists_key(links0, ur_user_key(), id@) {
            let i = choose|i: int|
                0 <= i < links0.len() && ur_user_key()(#[trigger] links0[i]) == id@;
            assert(!ur_not_user(id@)(links0[i]));
            lemma_filter_shorter(links0, ur_not_user(id@), i);
        } else {
            assert forall|i: int| 0 <= i < links0.len() implies ur_not_user(id@)(
                #[trigger] links0[i],
            ) by {
                if links0[i].user_id == id@ {
                    assert(ur_user_key()(links0[i]) == id@);
                }
            }
            lemma_filter_all(links0, ur_not_user(id@));
        }
        lemma_wf_filter_ur(old(db)@, ur_not_user(id@));
        assert(db@ == DbV {
            user_records: old(db)@.user_records.filter(ur_not_user(id@)),
            ..old(db)@
        });
    }
    if after == before {
        proof {
            assert(db@ == old(db)@);
        }
        return Err(
            ApiError::NotFound { message: concat2("no records found for user id: ", id) },
        );
    }
    Ok(())
}

/// Detaches one record from the user's collection: the user and the
/// record must both exist, and exactly the join rows matching both are
/// removed; when none matched, not-found.
pub fn remove_user_record(db: &mut Db, user_id: &str, body: &PatchUserRecord) -> (r: Result<
    (),
    ApiError,
>)
    requires
        old(db).wf(),
    ensures
        final (db).wf(),
        ({
            let found = has_user(old(db)@.users, user_id@);
            let rec_found = has_record(old(db)@.records, body.record_id@);
            let pair = user_owns_record(old(db)@.user_records, user_id@, body.record_id@);
            &&& !found ==> (r matches Err(e) && e matches ApiError::NotFound { message }
                && message@ == "User with id "@ + user_id@ + " not found"@) && final (db)@ == old(
                db,
            )@
            &&& found && !rec_found ==> (r matches Err(e) && e matches ApiError::NotFound {
                message,
            } && message@ == "Record with id "@ + body.record_id@ + " not found"@) && final (db)@
                == old(db)@
            &&& found && rec_found && !pair ==> (r matches Err(e) && e matches ApiError::NotFound {
                message,
            } && message@ == "No user_records found for user_id: "@ + user_id@
                + " and record_id: "@ + body.record_id@) && final (db)@ == old(db)@
            &&& found && rec_found && pair ==> r is Ok && final (db)@ == DbV {
                user_records: old(db)@.user_records.filter(
                    ur_not_pair(user_id@, body.record_id@),
                ),
                ..old(db)@
            }
        }),
{
    let u_idx = match find_user(&db.users, user_id) {
        Some(i) => i,
        None => {
            return Err(
                ApiError::NotFound { message: concat3("User with id ", user_id, " not found") },
            );
        },
    };
    proof {
        assert(user_id_key()(db@.users[u_idx as int]) == user_id@);
    }
    let r_idx = match find_record(&db.records, body.record_id.as_str()) {
        Some(i) => i,
        None => {
            return Err(
                ApiError::NotFound {
                    message: concat3("Record with id ", body.record_id.as_str(), " not found"),
                },
            );
        },
    };
    proof {
        assert(record_id_key()(db@.records[r_idx as int]) == body.record_id@);
    }
    let ghost links0 = db@.user_records;
    let ghost pred = ur_not_pair(user_id@, body.record_id@);
    let before = db.user_records.len();
    retain_user_records_not_pair(&mut db.user_records, user_id, body.record_id.as_str());
    let after = db.user_records.len();
    proof {
        if user_owns_record(links0, user_id@, body.record_id@) {
            let i = choose|i: int|
                0 <= i < links0.len() && ur_pair_key()(#[trigger] links0[i]) == (
                    user_id@,
                    body.record_id@,
                );
            assert(!ur_not_pair(user_id@, body.record_id@)(links0[i]));
            lemma_filter_shorter(links0, ur_not_pair(user_id@, body.record_id@), i);
        } else {
            assert forall|i: int| 0 <= i < links0.len() implies ur_not_pair(
                user_id@,
                body.record_id@,
            )(#[trigger] links0[i]) by {
                if links0[i].user_id == user_id@ && links0[i].record_id == body.record_id@ {
                    assert(ur_pair_key()(links0[i]) == (user_id@, body.record_id@));
                }
            }
            lemma_filter_all(links0, ur_not_pair(user_id@, body.record_id@));
        }
        lemma_wf_filter_ur(old(db)@, ur_not_pair(user_id@, body.record_id@));
        assert(db@ == DbV {
            user_records: old(db)@.user_records.filter(ur_not_pair(user_id@, body.record_id@)),
            ..old(db)@
        });
    }
    if after == before {
        proof {
            assert(db@ == old(db)@);
        }
        return Err(
            ApiError::NotFound {
                message: concat4(
                    "No user_records found for user_id: ",
                    user_id,
                    " and record_id: ",
                    body.record_id.as_str(),
                ),
            },
        );
    }
    Ok(())
}

} // verus!
