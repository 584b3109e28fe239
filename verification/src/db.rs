use vstd::prelude::*;

use crate::notes::{NoteModel, NoteV};
use crate::records::{RecordModel, RecordV};
use crate::order::{lemma_insert_by_split, lemma_sort_by_push, lex_le, spec_insert_by,
    spec_sort_by, str_le};
use crate::paging::window;
use crate::seqs::{distinct_by, exists_key, lemma_distinct_by_push, lemma_exists_key_filter,
    lemma_exists_key_push, lemma_filter_distinct_by, lemma_filter_elements, view_seq};
use crate::stores::{RecordStoreModel, RecordStoreV};
use crate::text::str_eq;
use crate::users::{UserModel, UserV};

verus! {

/// A join row linking a user to a record in their collection.
pub struct UserRecordRow {
    pub user_record_id: String,
    pub user_id: String,
    pub record_id: String,
}

/// The mathematical value of a collection join row.
pub ghost struct UserRecordV {
    pub user_record_id: Seq<char>,
    pub user_id: Seq<char>,
    pub record_id: Seq<char>,
}

impl View for UserRecordRow {
    type V = UserRecordV;

    open spec fn view(&self) -> UserRecordV {
        UserRecordV {
            user_record_id: self.user_record_id@,
            user_id: self.user_id@,
            record_id: self.record_id@,
        }
    }
}

impl UserRecordRow {
    /// A field-for-field copy of the row.
    pub fn duplicate(&self) -> (r: UserRecordRow)
        ensures
            r@ == self@,
    {
        UserRecordRow {
            user_record_id: self.user_record_id.clone(),
            user_id: self.user_id.clone(),
            record_id: self.record_id.clone(),
        }
    }
}

/// A join row linking a user to a favourite record store. The user column
/// is named `user_key` after the underlying table's own column.
pub struct UserStoreRow {
    pub user_favorite_stores_id: String,
    pub user_key: String,
    pub record_store_id: String,
}

/// The mathematical value of a favourite-store join row.
pub ghost struct UserStoreV {
    pub user_favorite_stores_id: Seq<char>,
    pub user_key: Seq<char>,
    pub record_store_id: Seq<char>,
}

impl View for UserStoreRow {
    type V = UserStoreV;

    open spec fn view(&self) -> UserStoreV {
        UserStoreV {
            user_favorite_stores_id: self.user_favorite_stores_id@,
            user_key: self.user_key@,
            record_store_id: self.record_store_id@,
        }
    }
}

impl UserStoreRow {
    /// A field-for-field copy of the row.
    pub fn duplicate(&self) -> (r: UserStoreRow)
        ensures
            r@ == self@,
    {
        UserStoreRow {
            user_favorite_stores_id: self.user_favorite_stores_id.clone(),
            user_key: self.user_key.clone(),
            record_store_id: self.record_store_id.clone(),
        }
    }
}

/// A join row placing a record on a user's wishlist, stamped with the
/// instant it was added.
pub struct WishlistRow {
    pub user_wish_list_id: String,
    pub user_id: String,
    pub record_id: String,
    pub added_at: i64,
}

/// The mathematical value of a wishlist join row.
pub ghost struct WishlistV {
    pub user_wish_list_id: Seq<char>,
    pub user_id: Seq<char>,
    pub record_id: Seq<char>,
    pub added_at: i64,
}

impl View for WishlistRow {
    type V = WishlistV;

    open spec fn view(&self) -> WishlistV {
        WishlistV {
            user_wish_list_id: self.user_wish_list_id@,
            user_id: self.user_id@,
            record_id: self.record_id@,
            added_at: self.added_at,
        }
    }
}

impl WishlistRow {
    /// A field-for-field copy of the row.
    pub fn duplicate(&self) -> (r: WishlistRow)
        ensures
            r@ == self@,
    {
        WishlistRow {
            user_wish_list_id: self.user_wish_list_id.clone(),
            user_id: self.user_id.clone(),
            record_id: self.record_id.clone(),
            added_at: self.added_at,
        }
    }
}

/// The mathematical value of the whole store: one sequence per table, in
/// insertion order.
pub ghost struct DbV {
    pub users: Seq<UserV>,
    pub records: Seq<RecordV>,
    pub record_stores: Seq<RecordStoreV>,
    pub notes: Seq<NoteV>,
    pub user_records: Seq<UserRecordV>,
    pub user_record_stores: Seq<UserStoreV>,
    pub user_wishlist: Seq<WishlistV>,
}

/// The relational store that every handler runs against: the entity tables
/// and the three association tables, each a sequence of rows in insertion
/// order.
pub struct Db {
    pub users: Vec<UserModel>,
    pub records: Vec<RecordModel>,
    pub record_stores: Vec<RecordStoreModel>,
    pub notes: Vec<NoteModel>,
    pub user_records: Vec<UserRecordRow>,
    pub user_record_stores: Vec<UserStoreRow>,
    pub user_wishlist: Vec<WishlistRow>,
}

impl View for Db {
    type V = DbV;

    open spec fn view(&self) -> DbV {
        DbV {
            users: view_seq(self.users@),
            records: view_seq(self.records@),
            record_stores: view_seq(self.record_stores@),
            notes: view_seq(self.notes@),
            user_records: view_seq(self.user_records@),
            user_record_stores: view_seq(self.user_record_stores@),
            user_wishlist: view_seq(self.user_wishlist@),
        }
    }
}

// The key functions that the uniqueness invariants and lookups speak of.
pub open spec fn user_id_key() -> spec_fn(UserV) -> Seq<char> {
    |u: UserV| u.user_id
}

pub open spec fn user_name_key() -> spec_fn(UserV) -> Seq<char> {
    |u: UserV| u.user_name
}

pub open spec fn user_email_key() -> spec_fn(UserV) -> Seq<char> {
    |u: UserV| u.user_email
}

pub open spec fn record_id_key() -> spec_fn(RecordV) -> Seq<char> {
    |r: RecordV| r.record_id
}

pub open spec fn store_id_key() -> spec_fn(RecordStoreV) -> Seq<char> {
    |s: RecordStoreV| s.record_store_id
}

/// The identifying tuple of a record store: name, address, city, state.
pub open spec fn store_tuple_key() -> spec_fn(RecordStoreV) -> (
    Seq<char>,
    Seq<char>,
    Seq<char>,
    Seq<char>,
) {
    |s: RecordStoreV| (s.store_name, s.store_address, s.store_city, s.store_state)
}

pub open spec fn note_id_key() -> spec_fn(NoteV) -> Seq<char> {
    |n: NoteV| n.id
}

pub open spec fn note_title_key() -> spec_fn(NoteV) -> Seq<char> {
    |n: NoteV| n.title
}

pub open spec fn ur_id_key() -> spec_fn(UserRecordV) -> Seq<char> {
    |l: UserRecordV| l.user_record_id
}

pub open spec fn ur_user_key() -> spec_fn(UserRecordV) -> Seq<char> {
    |l: UserRecordV| l.user_id
}

pub open spec fn ur_pair_key() -> spec_fn(UserRecordV) -> (Seq<char>, Seq<char>) {
    |l: UserRecordV| (l.user_id, l.record_id)
}

pub open spec fn us_id_key() -> spec_fn(UserStoreV) -> Seq<char> {
    |l: UserStoreV| l.user_favorite_stores_id
}

pub open spec fn us_user_key() -> spec_fn(UserStoreV) -> Seq<char> {
    |l: UserStoreV| l.user_key
}

pub open spec fn us_pair_key() -> spec_fn(UserStoreV) -> (Seq<char>, Seq<char>) {
    |l: UserStoreV| (l.user_key, l.record_store_id)
}

pub open spec fn uw_id_key() -> spec_fn(WishlistV) -> Seq<char> {
    |l: WishlistV| l.user_wish_list_id
}

pub open spec fn uw_user_key() -> spec_fn(WishlistV) -> Seq<char> {
    |l: WishlistV| l.user_id
}

pub open spec fn uw_pair_key() -> spec_fn(WishlistV) -> (Seq<char>, Seq<char>) {
    |l: WishlistV| (l.user_id, l.record_id)
}

// Existence predicates over table contents.
pub open spec fn has_user(users: Seq<UserV>, id: Seq<char>) -> bool {
    exists_key(users, user_id_key(), id)
}

pub open spec fn has_record(records: Seq<RecordV>, id: Seq<char>) -> bool {
    exists_key(records, record_id_key(), id)
}

pub open spec fn has_store(stores: Seq<RecordStoreV>, id: Seq<char>) -> bool {
    exists_key(stores, store_id_key(), id)
}

/// A store with the same identifying tuple already exists.
pub open spec fn has_store_tuple(
    stores: Seq<RecordStoreV>,
    name: Seq<char>,
    address: Seq<char>,
    city: Seq<char>,
    state: Seq<char>,
) -> bool {
    exists_key(stores, store_tuple_key(), (name, address, city, state))
}

pub open spec fn has_note(notes: Seq<NoteV>, id: Seq<char>) -> bool {
    exists_key(notes, note_id_key(), id)
}

pub open spec fn has_note_title(notes: Seq<NoteV>, title: Seq<char>) -> bool {
    exists_key(notes, note_title_key(), title)
}

/// The user's name or email is already taken by some stored user.
pub open spec fn user_taken(users: Seq<UserV>, name: Seq<char>, email: Seq<char>) -> bool {
    exists_key(users, user_name_key(), name) || exists_key(users, user_email_key(), email)
}

/// Some user other than `id` already holds the name or the email.
pub open spec fn user_conflict_except(
    users: Seq<UserV>,
    name: Seq<char>,
    email: Seq<char>,
    id: Seq<char>,
) -> bool {
    exists|i: int|
        0 <= i < users.len() && (#[trigger] users[i]).user_id != id && (users[i].user_name == name
            || users[i].user_email == email)
}

/// Some note other than `id` already holds the title.
pub open spec fn note_conflict_except(notes: Seq<NoteV>, title: Seq<char>, id: Seq<char>) -> bool {
    exists|i: int| 0 <= i < notes.len() && (#[trigger] notes[i]).id != id && notes[i].title == title
}

/// The user's collection holds the record.
pub open spec fn user_owns_record(
    links: Seq<UserRecordV>,
    user_id: Seq<char>,
    record_id: Seq<char>,
) -> bool {
    exists_key(links, ur_pair_key(), (user_id, record_id))
}

/// The user's favourite stores hold the store.
pub open spec fn user_has_store(
    links: Seq<UserStoreV>,
    user_id: Seq<char>,
    store_id: Seq<char>,
) -> bool {
    exists_key(links, us_pair_key(), (user_id, store_id))
}

/// The user's wishlist holds the record.
pub open spec fn user_wishes_record(
    links: Seq<WishlistV>,
    user_id: Seq<char>,
    record_id: Seq<char>,
) -> bool {
    exists_key(links, uw_pair_key(), (user_id, record_id))
}

/// Well-formedness of the whole store: generated identifiers are unique in
/// every table, the uniqueness invariants of users and notes hold, and
/// every association row references entities that exist.
pub open spec fn wf_db(db: DbV) -> bool {
    &&& distinct_by(db.users, user_id_key())
    &&& distinct_by(db.users, user_name_key())
    &&& distinct_by(db.users, user_email_key())
    &&& distinct_by(db.records, record_id_key())
    &&& distinct_by(db.record_stores, store_id_key())
    &&& distinct_by(db.notes, note_id_key())
    &&& distinct_by(db.notes, note_title_key())
    &&& distinct_by(db.user_records, ur_id_key())
    &&& distinct_by(db.user_record_stores, us_id_key())
    &&& distinct_by(db.user_wishlist, uw_id_key())
    &&& forall|i: int|
        0 <= i < db.user_records.len() ==> has_user(
            db.users,
            (#[trigger] db.user_records[i]).user_id,
        ) && has_record(db.records, db.user_records[i].record_id)
    &&& forall|i: int|
        0 <= i < db.user_record_stores.len() ==> has_user(
            db.users,
            (#[trigger] db.user_record_stores[i]).user_key,
        ) && has_store(db.record_stores, db.user_record_stores[i].record_store_id)
    &&& forall|i: int|
        0 <= i < db.user_wishlist.len() ==> has_user(
            db.users,
            (#[trigger] db.user_wishlist[i]).user_id,
        ) && has_record(db.records, db.user_wishlist[i].record_id)
}

impl Db {
    /// The store's invariant; established empty and preserved by every
    /// handler.
    pub open spec fn wf(&self) -> bool {
        wf_db(self@)
    }

    /// An empty store.
    pub fn new() -> (db: Db)
        ensures
            db.wf(),
            db@.users.len() == 0,
            db@.records.len() == 0,
            db@.record_stores.len() == 0,
            db@.notes.len() == 0,
            db@.user_records.len() == 0,
            db@.user_record_stores.len() == 0,
            db@.user_wishlist.len() == 0,
    {
        Db {
            users: Vec::new(),
            records: Vec::new(),
            record_stores: Vec::new(),
            notes: Vec::new(),
            user_records: Vec::new(),
            user_record_stores: Vec::new(),
            user_wishlist: Vec::new(),
        }
    }
}

/// The index of the user with the given identifier, if any.
pub fn find_user(users: &Vec<UserModel>, id: &str) -> (r: Option<usize>)
    ensures
        match r {
            Some(i) => i < users.len() && view_seq(users@)[i as int].user_id == id@,
            None => !has_user(view_seq(users@), id@),
        },
{
    let n = users.len();
    let mut i: usize = 0;
    while i < n
        invariant
            i <= n,
            n == users.len(),
            forall|k: int| 0 <= k < i ==> view_seq(users@)[k].user_id != id@,
        decreases n - i,
    {
        if str_eq(users[i].user_id.as_str(), id) {
            return Some(i);
        }
        i += 1;
    }
    None
}

/// The index of the record with the given identifier, if any.
pub fn find_record(records: &Vec<RecordModel>, id: &str) -> (r: Option<usize>)
    ensures
        match r {
            Some(i) => i < records.len() && view_seq(records@)[i as int].record_id == id@,
            None => !has_record(view_seq(records@), id@),
        },
{
    let n = records.len();
    let mut i: usize = 0;
    while i < n
        invariant
            i <= n,
            n == records.len(),
            forall|k: int| 0 <= k < i ==> view_seq(records@)[k].record_id != id@,
        decreases n - i,
    {
        if str_eq(records[i].record_id.as_str(), id) {
            return Some(i);
        }
        i += 1;
    }
    None
}

/// The index of the record store with the given identifier, if any.
pub fn find_store(stores: &Vec<RecordStoreModel>, id: &str) -> (r: Option<usize>)
    ensures
        match r {
            Some(i) => i < stores.len() && view_seq(stores@)[i as int].record_store_id == id@,
            None => !has_store(view_seq(stores@), id@),
        },
{
    let n = stores.len();
    let mut i: usize = 0;
    while i < n
        invariant
            i <= n,
            n == stores.len(),
            forall|k: int| 0 <= k < i ==> view_seq(stores@)[k].record_store_id != id@,
        decreases n - i,
    {
        if str_eq(stores[i].record_store_id.as_str(), id) {
            return Some(i);
        }
        i += 1;
    }
    None
}

/// The index of the note with the given identifier, if any.
pub fn find_note(notes: &Vec<NoteModel>, id: &str) -> (r: Option<usize>)
    ensures
        match r {
            Some(i) => i < notes.len() && view_seq(notes@)[i as int].id == id@,
            None => !has_note(view_seq(notes@), id@),
        },
{
    let n = notes.len();
    let mut i: usize = 0;
    while i < n
        invariant
            i <= n,
            n == notes.len(),
            forall|k: int| 0 <= k < i ==> view_seq(notes@)[k].id != id@,
        decreases n - i,
    {
        if str_eq(notes[i].id.as_str(), id) {
            return Some(i);
        }
        i += 1;
    }
    None
}

/// Whether some stored user already holds the name or the email.
pub fn user_name_or_email_taken(users: &Vec<UserModel>, name: &str, email: &str) -> (r: bool)
    ensures
        r == user_taken(view_seq(users@), name@, email@),
{
    let n = users.len();
    let mut i: usize = 0;
    while i < n
        invariant
            i <= n,
            n == users.len(),
            forall|k: int|
                0 <= k < i ==> view_seq(users@)[k].user_name != name@ && view_seq(
                    users@,
                )[k].user_email != email@,
        decreases n - i,
    {
        if str_eq(users[i].user_name.as_str(), name) || str_eq(users[i].user_email.as_str(), email)
        {
            proof {
                let u = view_seq(users@)[i as int];
                if u.user_name == name@ {
                    assert(user_name_key()(u) == name@);
                } else {
                    assert(user_email_key()(u) == email@);
                }
            }
            return true;
        }
        i += 1;
    }
    false
}

/// Whether some user other than `id` already holds the name or the email.
pub fn user_conflicts_except(users: &Vec<UserModel>, name: &str, email: &str, id: &str) -> (r:
    bool)
    ensures
        r == user_conflict_except(view_seq(users@), name@, email@, id@),
{
    let n = users.len();
    let mut i: usize = 0;
    while i < n
        invariant
            i <= n,
            n == users.len(),
            forall|k: int|
                0 <= k < i ==> !((#[trigger] view_seq(users@)[k]).user_id != id@ && (view_seq(
                    users@,
                )[k].user_name == name@ || view_seq(users@)[k].user_email == email@)),
        decreases n - i,
    {
        if !str_eq(users[i].user_id.as_str(), id) && (str_eq(users[i].user_name.as_str(), name)
            || str_eq(users[i].user_email.as_str(), email)) {
            proof {
                let u = view_seq(users@)[i as int];
                assert(u.user_id != id@ && (u.user_name == name@ || u.user_email == email@));
            }
            return true;
        }
        i += 1;
    }
    false
}

/// Whether some note other than `id` already holds the title.
pub fn note_conflicts_except(notes: &Vec<NoteModel>, title: &str, id: &str) -> (r: bool)
    ensures
        r == note_conflict_except(view_seq(notes@), title@, id@),
{
    let n = notes.len();
    let mut i: usize = 0;
    while i < n
        invariant
            i <= n,
            n == notes.len(),
            forall|k: int|
                0 <= k < i ==> !((#[trigger] view_seq(notes@)[k]).id != id@ && view_seq(
                    notes@,
                )[k].title == title@),
        decreases n - i,
    {
        if !str_eq(notes[i].id.as_str(), id) && str_eq(notes[i].title.as_str(), title) {
            proof {
                let v = view_seq(notes@)[i as int];
                assert(v.id != id@ && v.title == title@);
            }
            return true;
        }
        i += 1;
    }
    false
}

/// Whether some stored note already holds the title.
pub fn note_title_taken(notes: &Vec<NoteModel>, title: &str) -> (r: bool)
    ensures
        r == has_note_title(view_seq(notes@), title@),
{
    let n = notes.len();
    let mut i: usize = 0;
    while i < n
        invariant
            i <= n,
            n == notes.len(),
            forall|k: int| 0 <= k < i ==> view_seq(notes@)[k].title != title@,
        decreases n - i,
    {
        if str_eq(notes[i].title.as_str(), title) {
            proof {
                assert(note_title_key()(view_seq(notes@)[i as int]) == title@);
            }
            return true;
        }
        i += 1;
    }
    false
}

/// Whether a store with the same identifying tuple already exists.
pub fn store_tuple_taken(
    stores: &Vec<RecordStoreModel>,
    name: &str,
    address: &str,
    city: &str,
    state: &str,
) -> (r: bool)
    ensures
        r == has_store_tuple(view_seq(stores@), name@, address@, city@, state@),
{
    let n = stores.len();
    let mut i: usize = 0;
    while i < n
        invariant
            i <= n,
            n == stores.len(),
            forall|k: int|
                0 <= k < i ==> (#[trigger] view_seq(stores@)[k].store_name, view_seq(
                    stores@,
                )[k].store_address, view_seq(stores@)[k].store_city, view_seq(
                    stores@,
                )[k].store_state) != (name@, address@, city@, state@),
        decreases n - i,
    {
        if str_eq(stores[i].store_name.as_str(), name) && str_eq(
            stores[i].store_address.as_str(),
            address,
        ) && str_eq(stores[i].store_city.as_str(), city) && str_eq(
            stores[i].store_state.as_str(),
            state,
        ) {
            proof {
                assert(store_tuple_key()(view_seq(stores@)[i as int]) == (
                    name@,
                    address@,
                    city@,
                    state@,
                ));
            }
            return true;
        }
        i += 1;
    }
    false
}

// The row predicates that deletions filter with: each names the rows a
// delete keeps.
pub open spec fn user_not_id(id: Seq<char>) -> spec_fn(UserV) -> bool {
    |u: UserV| u.user_id != id
}

pub open spec fn record_not_id(id: Seq<char>) -> spec_fn(RecordV) -> bool {
    |r: RecordV| r.record_id != id
}

pub open spec fn store_not_id(id: Seq<char>) -> spec_fn(RecordStoreV) -> bool {
    |s: RecordStoreV| s.record_store_id != id
}

pub open spec fn note_not_id(id: Seq<char>) -> spec_fn(NoteV) -> bool {
    |n: NoteV| n.id != id
}

pub open spec fn ur_not_user(user_id: Seq<char>) -> spec_fn(UserRecordV) -> bool {
    |l: UserRecordV| l.user_id != user_id
}

pub open spec fn ur_not_record(record_id: Seq<char>) -> spec_fn(UserRecordV) -> bool {
    |l: UserRecordV| l.record_id != record_id
}

pub open spec fn ur_not_pair(user_id: Seq<char>, record_id: Seq<char>) -> spec_fn(
    UserRecordV,
) -> bool {
    |l: UserRecordV| !(l.user_id == user_id && l.record_id == record_id)
}

pub open spec fn us_not_user(user_id: Seq<char>) -> spec_fn(UserStoreV) -> bool {
    |l: UserStoreV| l.user_key != user_id
}

pub open spec fn us_not_store(store_id: Seq<char>) -> spec_fn(UserStoreV) -> bool {
    |l: UserStoreV| l.record_store_id != store_id
}

pub open spec fn us_not_pair(user_id: Seq<char>, store_id: Seq<char>) -> spec_fn(
    UserStoreV,
) -> bool {
    |l: UserStoreV| !(l.user_key == user_id && l.record_store_id == store_id)
}

pub open spec fn uw_not_user(user_id: Seq<char>) -> spec_fn(WishlistV) -> bool {
    |l: WishlistV| l.user_id != user_id
}

pub open spec fn uw_not_record(record_id: Seq<char>) -> spec_fn(WishlistV) -> bool {
    |l: WishlistV| l.record_id != record_id
}

pub open spec fn uw_not_pair(user_id: Seq<char>, record_id: Seq<char>) -> spec_fn(
    WishlistV,
) -> bool {
    |l: WishlistV| !(l.user_id == user_id && l.record_id == record_id)
}

/// Keeps the users whose identifier differs from `id`.
pub fn retain_users_not_id(users: &mut Vec<UserModel>, id: &str)
    ensures
        view_seq(final (users)@) == view_seq(old(users)@).filter(user_not_id(id@)),
{
    let mut kept: Vec<UserModel> = Vec::new();
    let n = users.len();
    let mut i: usize = 0;
    while i < n
        invariant
            i <= n,
            n == users.len(),
            view_seq(kept@) == view_seq(users@.subrange(0, i as int)).filter(user_not_id(id@)),
        decreases n - i,
    {
        let keep = !str_eq(users[i].user_id.as_str(), id);
        let ghost kept0 = kept@;
        if keep {
            kept.push(users[i].duplicate());
        }
        proof {
            let row = users@[i as int]@;
            assert(user_not_id(id@)(row) == keep);
            if keep {
                assert(view_seq(kept@) =~= view_seq(kept0).push(row));
            }
            assert(view_seq(users@.subrange(0, i + 1 as int)) =~= view_seq(
                users@.subrange(0, i as int),
            ).push(row));
            crate::seqs::lemma_filter_push(view_seq(users@.subrange(0, i as int)), user_not_id(id@), row);
        }
        i += 1;
    }
    proof {
        assert(users@.subrange(0, n as int) =~= users@);
    }
    *users = kept;
}

/// Keeps the records whose identifier differs from `id`.
pub fn retain_records_not_id(records: &mut Vec<RecordModel>, id: &str)
    ensures
        view_seq(final (records)@) == view_seq(old(records)@).filter(record_not_id(id@)),
{
    let mut kept: Vec<RecordModel> = Vec::new();
    let n = records.len();
    let mut i: usize = 0;
    while i < n
        invariant
            i <= n,
            n == records.len(),
            view_seq(kept@) == view_seq(records@.subrange(0, i as int)).filter(record_not_id(id@)),
        decreases n - i,
    {
        let keep = !str_eq(records[i].record_id.as_str(), id);
        let ghost kept0 = kept@;
        if keep {
            kept.push(records[i].duplicate());
        }
        proof {
            let row = records@[i as int]@;
            assert(record_not_id(id@)(row) == keep);
            if keep {
                assert(view_seq(kept@) =~= view_seq(kept0).push(row));
            }
            assert(view_seq(records@.subrange(0, i + 1 as int)) =~= view_seq(
                records@.subrange(0, i as int),
            ).push(row));
            crate::seqs::lemma_filter_push(view_seq(records@.subrange(0, i as int)), record_not_id(id@), row);
        }
        i += 1;
    }
    proof {
        assert(records@.subrange(0, n as int) =~= records@);
    }
    *records = kept;
}

/// Keeps the record stores whose identifier differs from `id`.
pub fn retain_stores_not_id(stores: &mut Vec<RecordStoreModel>, id: &str)
    ensures
        view_seq(final (stores)@) == view_seq(old(stores)@).filter(store_not_id(id@)),
{
    let mut kept: Vec<RecordStoreModel> = Vec::new();
    let n = stores.len();
    let mut i: usize = 0;
    while i < n
        invariant
            i <= n,
            n == stores.len(),
            view_seq(kept@) == view_seq(stores@.subrange(0, i as int)).filter(store_not_id(id@)),
        decreases n - i,
    {
        let keep = !str_eq(stores[i].record_store_id.as_str(), id);
        let ghost kept0 = kept@;
        if keep {
            kept.push(stores[i].duplicate());
        }
        proof {
            let row = stores@[i as int]@;
            assert(store_not_id(id@)(row) == keep);
            if keep {
                assert(view_seq(kept@) =~= view_seq(kept0).push(row));
            }
            assert(view_seq(stores@.subrange(0, i + 1 as int)) =~= view_seq(
                stores@.subrange(0, i as int),
            ).push(row));
            crate::seqs::lemma_filter_push(view_seq(stores@.subrange(0, i as int)), store_not_id(id@), row);
        }
        i += 1;
    }
    proof {
        assert(stores@.subrange(0, n as int) =~= stores@);
    }
    *stores = kept;
}

/// Keeps the notes whose identifier differs from `id`.
pub fn retain_notes_not_id(notes: &mut Vec<NoteModel>, id: &str)
    ensures
        view_seq(final (notes)@) == view_seq(old(notes)@).filter(note_not_id(id@)),
{
    let mut kept: Vec<NoteModel> = Vec::new();
    let n = notes.len();
    let mut i: usize = 0;
    while i < n
        invariant
            i <= n,
            n == notes.len(),
            view_seq(kept@) == view_seq(notes@.subrange(0, i as int)).filter(note_not_id(id@)),
        decreases n - i,
    {
        let keep = !str_eq(notes[i].id.as_str(), id);
        let ghost kept0 = kept@;
        if keep {
            kept.push(notes[i].duplicate());
        }
        proof {
            let row = notes@[i as int]@;
            assert(note_not_id(id@)(row) == keep);
            if keep {
                assert(view_seq(kept@) =~= view_seq(kept0).push(row));
            }
            assert(view_seq(notes@.subrange(0, i + 1 as int)) =~= view_seq(
                notes@.subrange(0, i as int),
            ).push(row));
            crate::seqs::lemma_filter_push(view_seq(notes@.subrange(0, i as int)), note_not_id(id@), row);
        }
        i += 1;
    }
    proof {
        assert(notes@.subrange(0, n as int) =~= notes@);
    }
    *notes = kept;
}

/// Removes every collection row of the user.
pub fn retain_user_records_not_user(links: &mut Vec<UserRecordRow>, user_id: &str)
    ensures
        view_seq(final (links)@) == view_seq(old(links)@).filter(ur_not_user(user_id@)),
{
    let mut kept: Vec<UserRecordRow> = Vec::new();
    let n = links.len();
    let mut i: usize = 0;
    while i < n
        invariant
            i <= n,
            n == links.len(),
            view_seq(kept@) == view_seq(links@.subrange(0, i as int)).filter(ur_not_user(user_id@)),
        decreases n - i,
    {
        let keep = !str_eq(links[i].user_id.as_str(), user_id);
        let ghost kept0 = kept@;
        if keep {
            kept.push(links[i].duplicate());
        }
        proof {
            let row = links@[i as int]@;
            assert(ur_not_user(user_id@)(row) == keep);
            if keep {
                assert(view_seq(kept@) =~= view_seq(kept0).push(row));
            }
            assert(view_seq(links@.subrange(0, i + 1 as int)) =~= view_seq(
                links@.subrange(0, i as int),
            ).push(row));
            crate::seqs::lemma_filter_push(view_seq(links@.subrange(0, i as int)), ur_not_user(user_id@), row);
        }
        i += 1;
    }
    proof {
        assert(links@.subrange(0, n as int) =~= links@);
    }
    *links = kept;
}

/// Removes every collection row naming the record.
pub fn retain_user_records_not_record(links: &mut Vec<UserRecordRow>, record_id: &str)
    ensures
        view_seq(final (links)@) == view_seq(old(links)@).filter(ur_not_record(record_id@)),
{
    let mut kept: Vec<UserRecordRow> = Vec::new();
    let n = links.len();
    let mut i: usize = 0;
    while i < n
        invariant
            i <= n,
            n == links.len(),
            view_seq(kept@) == view_seq(links@.subrange(0, i as int)).filter(ur_not_record(record_id@)),
        decreases n - i,
    {
        let keep = !str_eq(links[i].record_id.as_str(), record_id);
        let ghost kept0 = kept@;
        if keep {
            kept.push(links[i].duplicate());
        }
        proof {
            let row = links@[i as int]@;
            assert(ur_not_record(record_id@)(row) == keep);
            if keep {
                assert(view_seq(kept@) =~= view_seq(kept0).push(row));
            }
            assert(view_seq(links@.subrange(0, i + 1 as int)) =~= view_seq(
                links@.subrange(0, i as int),
            ).push(row));
            crate::seqs::lemma_filter_push(view_seq(links@.subrange(0, i as int)), ur_not_record(record_id@), row);
        }
        i += 1;
    }
    proof {
        assert(links@.subrange(0, n as int) =~= links@);
    }
    *links = kept;
}

/// Removes exactly the collection rows matching the user and the record.
pub fn retain_user_records_not_pair(links: &mut Vec<UserRecordRow>, user_id: &str, record_id: &str)
    ensures
        view_seq(final (links)@) == view_seq(old(links)@).filter(ur_not_pair(user_id@, record_id@)),
{
    let mut kept: Vec<UserRecordRow> = Vec::new();
    let n = links.len();
    let mut i: usize = 0;
    while i < n
        invariant
            i <= n,
            n == links.len(),
            view_seq(kept@) == view_seq(links@.subrange(0, i as int)).filter(ur_not_pair(user_id@, record_id@)),
        decreases n - i,
    {
        let keep = !(str_eq(links[i].user_id.as_str(), user_id) && str_eq(links[i].record_id.as_str(), record_id));
        let ghost kept0 = kept@;
        if keep {
            kept.push(links[i].duplicate());
        }
        proof {
            let row = links@[i as int]@;
            assert(ur_not_pair(user_id@, record_id@)(row) == keep);
            if keep {
                assert(view_seq(kept@) =~= view_seq(kept0).push(row));
            }
            assert(view_seq(links@.subrange(0, i + 1 as int)) =~= view_seq(
                links@.subrange(0, i as int),
            ).push(row));
            crate::seqs::lemma_filter_push(view_seq(links@.subrange(0, i as int)), ur_not_pair(user_id@, record_id@), row);
        }
        i += 1;
    }
    proof {
        assert(links@.subrange(0, n as int) =~= links@);
    }
    *links = kept;
}

/// Removes every favourite-store row of the user.
pub fn retain_user_stores_not_user(links: &mut Vec<UserStoreRow>, user_id: &str)
    ensures
        view_seq(final (links)@) == view_seq(old(links)@).filter(us_not_user(user_id@)),
{
    let mut kept: Vec<UserStoreRow> = Vec::new();
    let n = links.len();
    let mut i: usize = 0;
    while i < n
        invariant
            i <= n,
            n == links.len(),
            view_seq(kept@) == view_seq(links@.subrange(0, i as int)).filter(us_not_user(user_id@)),
        decreases n - i,
    {
        let keep = !str_eq(links[i].user_key.as_str(), user_id);
        let ghost kept0 = kept@;
        if keep {
            kept.push(links[i].duplicate());
        }
        proof {
            let row = links@[i as int]@;
            assert(us_not_user(user_id@)(row) == keep);
            if keep {
                assert(view_seq(kept@) =~= view_seq(kept0).push(row));
            }
            assert(view_seq(links@.subrange(0, i + 1 as int)) =~= view_seq(
                links@.subrange(0, i as int),
            ).push(row));
            crate::seqs::lemma_filter_push(view_seq(links@.subrange(0, i as int)), us_not_user(user_id@), row);
        }
        i += 1;
    }
    proof {
        assert(links@.subrange(0, n as int) =~= links@);
    }
    *links = kept;
}

/// Removes every favourite-store row naming the store.
pub fn retain_user_stores_not_store(links: &mut Vec<UserStoreRow>, store_id: &str)
    ensures
        view_seq(final (links)@) == view_seq(old(links)@).filter(us_not_store(store_id@)),
{
    let mut kept: Vec<UserStoreRow> = Vec::new();
    let n = links.len();
    let mut i: usize = 0;
    while i < n
        invariant
            i <= n,
            n == links.len(),
            view_seq(kept@) == view_seq(links@.subrange(0, i as int)).filter(us_not_store(store_id@)),
        decreases n - i,
    {
        let keep = !str_eq(links[i].record_store_id.as_str(), store_id);
        let ghost kept0 = kept@;
        if keep {
            kept.push(links[i].duplicate());
        }
        proof {
            let row = links@[i as int]@;
            assert(us_not_store(store_id@)(row) == keep);
            if keep {
                assert(view_seq(kept@) =~= view_seq(kept0).push(row));
            }
            assert(view_seq(links@.subrange(0, i + 1 as int)) =~= view_seq(
                links@.subrange(0, i as int),
            ).push(row));
            crate::seqs::lemma_filter_push(view_seq(links@.subrange(0, i as int)), us_not_store(store_id@), row);
        }
        i += 1;
    }
    proof {
        assert(links@.subrange(0, n as int) =~= links@);
    }
    *links = kept;
}

/// Removes exactly the favourite-store rows matching the user and the store.
pub fn retain_user_stores_not_pair(links: &mut Vec<UserStoreRow>, user_id: &str, store_id: &str)
    ensures
        view_seq(final (links)@) == view_seq(old(links)@).filter(us_not_pair(user_id@, store_id@)),
{
    let mut kept: Vec<UserStoreRow> = Vec::new();
    let n = links.len();
    let mut i: usize = 0;
    while i < n
        invariant
            i <= n,
            n == links.len(),
            view_seq(kept@) == view_seq(links@.subrange(0, i as int)).filter(us_not_pair(user_id@, store_id@)),
        decreases n - i,
    {
        let keep = !(str_eq(links[i].user_key.as_str(), user_id) && str_eq(links[i].record_store_id.as_str(), store_id));
        let ghost kept0 = kept@;
        if keep {
            kept.push(links[i].duplicate());
        }
        proof {
            let row = links@[i as int]@;
            assert(us_not_pair(user_id@, store_id@)(row) == keep);
            if keep {
                assert(view_seq(kept@) =~= view_seq(kept0).push(row));
            }
            assert(view_seq(links@.subrange(0, i + 1 as int)) =~= view_seq(
                links@.subrange(0, i as int),
            ).push(row));
            crate::seqs::lemma_filter_push(view_seq(links@.subrange(0, i as int)), us_not_pair(user_id@, store_id@), row);
        }
        i += 1;
    }
    proof {
        assert(links@.subrange(0, n as int) =~= links@);
    }
    *links = kept;
}

/// Removes every wishlist row of the user.
pub fn retain_wishlist_not_user(links: &mut Vec<WishlistRow>, user_id: &str)
    ensures
        view_seq(final (links)@) == view_seq(old(links)@).filter(uw_not_user(user_id@)),
{
    let mut kept: Vec<WishlistRow> = Vec::new();
    let n = links.len();
    let mut i: usize = 0;
    while i < n
        invariant
            i <= n,
            n == links.len(),
            view_seq(kept@) == view_seq(links@.subrange(0, i as int)).filter(uw_not_user(user_id@)),
        decreases n - i,
    {
        let keep = !str_eq(links[i].user_id.as_str(), user_id);
        let ghost kept0 = kept@;
        if keep {
            kept.push(links[i].duplicate());
        }
        proof {
            let row = links@[i as int]@;
            assert(uw_not_user(user_id@)(row) == keep);
            if keep {
                assert(view_seq(kept@) =~= view_seq(kept0).push(row));
            }
            assert(view_seq(links@.subrange(0, i + 1 as int)) =~= view_seq(
                links@.subrange(0, i as int),
            ).push(row));
            crate::seqs::lemma_filter_push(view_seq(links@.subrange(0, i as int)), uw_not_user(user_id@), row);
        }
        i += 1;
    }
    proof {
        assert(links@.subrange(0, n as int) =~= links@);
    }
    *links = kept;
}

/// Removes every wishlist row naming the record.
pub fn retain_wishlist_not_record(links: &mut Vec<WishlistRow>, record_id: &str)
    ensures
        view_seq(final (links)@) == view_seq(old(links)@).filter(uw_not_record(record_id@)),
{
    let mut kept: Vec<WishlistRow> = Vec::new();
    let n = links.len();
    let mut i: usize = 0;
    while i < n
        invariant
            i <= n,
            n == links.len(),
            view_seq(kept@) == view_seq(links@.subrange(0, i as int)).filter(uw_not_record(record_id@)),
        decreases n - i,
    {
        let keep = !str_eq(links[i].record_id.as_str(), record_id);
        let ghost kept0 = kept@;
        if keep {
            kept.push(links[i].duplicate());
        }
        proof {
            let row = links@[i as int]@;
            assert(uw_not_record(record_id@)(row) == keep);
            if keep {
                assert(view_seq(kept@) =~= view_seq(kept0).push(row));
            }
            assert(view_seq(links@.subrange(0, i + 1 as int)) =~= view_seq(
                links@.subrange(0, i as int),
            ).push(row));
            crate::seqs::lemma_filter_push(view_seq(links@.subrange(0, i as int)), uw_not_record(record_id@), row);
        }
        i += 1;
    }
    proof {
        assert(links@.subrange(0, n as int) =~= links@);
    }
    *links = kept;
}

/// Removes exactly the wishlist rows matching the user and the record.
pub fn retain_wishlist_not_pair(links: &mut Vec<WishlistRow>, user_id: &str, record_id: &str)
    ensures
        view_seq(final (links)@) == view_seq(old(links)@).filter(uw_not_pair(user_id@, record_id@)),
{
    let mut kept: Vec<WishlistRow> = Vec::new();
    let n = links.len();
    let mut i: usize = 0;
    while i < n
        invariant
            i <= n,
            n == links.len(),
            view_seq(kept@) == view_seq(links@.subrange(0, i as int)).filter(uw_not_pair(user_id@, record_id@)),
        decreases n - i,
    {
        let keep = !(str_eq(links[i].user_id.as_str(), user_id) && str_eq(links[i].record_id.as_str(), record_id));
        let ghost kept0 = kept@;
        if keep {
            kept.push(links[i].duplicate());
        }
        proof {
            let row = links@[i as int]@;
            assert(uw_not_pair(user_id@, record_id@)(row) == keep);
            if keep {
                assert(view_seq(kept@) =~= view_seq(kept0).push(row));
            }
            assert(view_seq(links@.subrange(0, i + 1 as int)) =~= view_seq(
                links@.subrange(0, i as int),
            ).push(row));
            crate::seqs::lemma_filter_push(view_seq(links@.subrange(0, i as int)), uw_not_pair(user_id@, record_id@), row);
        }
        i += 1;
    }
    proof {
        assert(links@.subrange(0, n as int) =~= links@);
    }
    *links = kept;
}


/// Whether the user has any collection row.
pub fn ur_has_user(links: &Vec<UserRecordRow>, user_id: &str) -> (r: bool)
    ensures
        r == exists_key(view_seq(links@), ur_user_key(), user_id@),
{
    let n = links.len();
    let mut i: usize = 0;
    while i < n
        invariant
            i <= n,
            n == links.len(),
            forall|k: int| 0 <= k < i ==> ur_user_key()(#[trigger] view_seq(links@)[k]) != user_id@,
        decreases n - i,
    {
        if str_eq(links[i].user_id.as_str(), user_id) {
            proof {
                assert(ur_user_key()(view_seq(links@)[i as int]) == user_id@);
            }
            return true;
        }
        i += 1;
    }
    false
}

/// Whether a collection row already carries the identifier.
pub fn ur_id_used(links: &Vec<UserRecordRow>, link_id: &str) -> (r: bool)
    ensures
        r == exists_key(view_seq(links@), ur_id_key(), link_id@),
{
    let n = links.len();
    let mut i: usize = 0;
    while i < n
        invariant
            i <= n,
            n == links.len(),
            forall|k: int| 0 <= k < i ==> ur_id_key()(#[trigger] view_seq(links@)[k]) != link_id@,
        decreases n - i,
    {
        if str_eq(links[i].user_record_id.as_str(), link_id) {
            proof {
                assert(ur_id_key()(view_seq(links@)[i as int]) == link_id@);
            }
            return true;
        }
        i += 1;
    }
    false
}

/// Whether the user has any favourite-store row.
pub fn us_has_user(links: &Vec<UserStoreRow>, user_id: &str) -> (r: bool)
    ensures
        r == exists_key(view_seq(links@), us_user_key(), user_id@),
{
    let n = links.len();
    let mut i: usize = 0;
    while i < n
        invariant
            i <= n,
            n == links.len(),
            forall|k: int| 0 <= k < i ==> us_user_key()(#[trigger] view_seq(links@)[k]) != user_id@,
        decreases n - i,
    {
        if str_eq(links[i].user_key.as_str(), user_id) {
            proof {
                assert(us_user_key()(view_seq(links@)[i as int]) == user_id@);
            }
            return true;
        }
        i += 1;
    }
    false
}

/// Whether a favourite-store row already carries the identifier.
pub fn us_id_used(links: &Vec<UserStoreRow>, link_id: &str) -> (r: bool)
    ensures
        r == exists_key(view_seq(links@), us_id_key(), link_id@),
{
    let n = links.len();
    let mut i: usize = 0;
    while i < n
        invariant
            i <= n,
            n == links.len(),
            forall|k: int| 0 <= k < i ==> us_id_key()(#[trigger] view_seq(links@)[k]) != link_id@,
        decreases n - i,
    {
        if str_eq(links[i].user_favorite_stores_id.as_str(), link_id) {
            proof {
                assert(us_id_key()(view_seq(links@)[i as int]) == link_id@);
            }
            return true;
        }
        i += 1;
    }
    false
}

/// Whether the user has any wishlist row.
pub fn uw_has_user(links: &Vec<WishlistRow>, user_id: &str) -> (r: bool)
    ensures
        r == exists_key(view_seq(links@), uw_user_key(), user_id@),
{
    let n = links.len();
    let mut i: usize = 0;
    while i < n
        invariant
            i <= n,
            n == links.len(),
            forall|k: int| 0 <= k < i ==> uw_user_key()(#[trigger] view_seq(links@)[k]) != user_id@,
        decreases n - i,
    {
        if str_eq(links[i].user_id.as_str(), user_id) {
            proof {
                assert(uw_user_key()(view_seq(links@)[i as int]) == user_id@);
            }
            return true;
        }
        i += 1;
    }
    false
}

/// Whether a wishlist row already carries the identifier.
pub fn uw_id_used(links: &Vec<WishlistRow>, link_id: &str) -> (r: bool)
    ensures
        r == exists_key(view_seq(links@), uw_id_key(), link_id@),
{
    let n = links.len();
    let mut i: usize = 0;
    while i < n
        invariant
            i <= n,
            n == links.len(),
            forall|k: int| 0 <= k < i ==> uw_id_key()(#[trigger] view_seq(links@)[k]) != link_id@,
        decreases n - i,
    {
        if str_eq(links[i].user_wish_list_id.as_str(), link_id) {
            proof {
                assert(uw_id_key()(view_seq(links@)[i as int]) == link_id@);
            }
            return true;
        }
        i += 1;
    }
    false
}

/// Whether the user's collection holds the record.
pub fn ur_has_pair(links: &Vec<UserRecordRow>, a: &str, b: &str) -> (r: bool)
    ensures
        r == exists_key(view_seq(links@), ur_pair_key(), (a@, b@)),
{
    let n = links.len();
    let mut i: usize = 0;
    while i < n
        invariant
            i <= n,
            n == links.len(),
            forall|k: int| 0 <= k < i ==> ur_pair_key()(#[trigger] view_seq(links@)[k]) != (a@, b@),
        decreases n - i,
    {
        if str_eq(links[i].user_id.as_str(), a) && str_eq(links[i].record_id.as_str(), b) {
            proof {
                assert(ur_pair_key()(view_seq(links@)[i as int]) == (a@, b@));
            }
            return true;
        }
        i += 1;
    }
    false
}

/// Whether the user's favourite stores hold the store.
pub fn us_has_pair(links: &Vec<UserStoreRow>, a: &str, b: &str) -> (r: bool)
    ensures
        r == exists_key(view_seq(links@), us_pair_key(), (a@, b@)),
{
    let n = links.len();
    let mut i: usize = 0;
    while i < n
        invariant
            i <= n,
            n == links.len(),
            forall|k: int| 0 <= k < i ==> us_pair_key()(#[trigger] view_seq(links@)[k]) != (a@, b@),
        decreases n - i,
    {
        if str_eq(links[i].user_key.as_str(), a) && str_eq(links[i].record_store_id.as_str(), b) {
            proof {
                assert(us_pair_key()(view_seq(links@)[i as int]) == (a@, b@));
            }
            return true;
        }
        i += 1;
    }
    false
}

/// Whether the user's wishlist holds the record.
pub fn uw_has_pair(links: &Vec<WishlistRow>, a: &str, b: &str) -> (r: bool)
    ensures
        r == exists_key(view_seq(links@), uw_pair_key(), (a@, b@)),
{
    let n = links.len();
    let mut i: usize = 0;
    while i < n
        invariant
            i <= n,
            n == links.len(),
            forall|k: int| 0 <= k < i ==> uw_pair_key()(#[trigger] view_seq(links@)[k]) != (a@, b@),
        decreases n - i,
    {
        if str_eq(links[i].user_id.as_str(), a) && str_eq(links[i].record_id.as_str(), b) {
            proof {
                assert(uw_pair_key()(view_seq(links@)[i as int]) == (a@, b@));
            }
            return true;
        }
        i += 1;
    }
    false
}


// The membership predicates that the by-owner reads filter with.
pub open spec fn record_owned(links: Seq<UserRecordV>, user_id: Seq<char>) -> spec_fn(
    RecordV,
) -> bool {
    |r: RecordV| user_owns_record(links, user_id, r.record_id)
}

pub open spec fn record_wished(links: Seq<WishlistV>, user_id: Seq<char>) -> spec_fn(
    RecordV,
) -> bool {
    |r: RecordV| user_wishes_record(links, user_id, r.record_id)
}

pub open spec fn store_faved(links: Seq<UserStoreV>, user_id: Seq<char>) -> spec_fn(
    RecordStoreV,
) -> bool {
    |s: RecordStoreV| user_has_store(links, user_id, s.record_store_id)
}

/// The list window over the record table: up to `limit` rows starting
/// `offset` rows in, each copied out.
pub fn window_records(rows: &Vec<RecordModel>, offset: usize, limit: usize) -> (r: Vec<RecordModel>)
    ensures
        view_seq(r@) == window(view_seq(rows@), offset as int, limit as int),
{
    let n = rows.len();
    let start = if offset > n { n } else { offset };
    let room = n - start;
    let take = if limit < room { limit } else { room };
    let end = start + take;
    let mut out: Vec<RecordModel> = Vec::new();
    let mut i: usize = start;
    while i < end
        invariant
            start <= i <= end,
            end == start + take,
            end <= n,
            n == rows.len(),
            out.len() == i - start,
            forall|k: int| 0 <= k < out.len() ==> view_seq(out@)[k] == view_seq(rows@)[start + k],
        decreases end - i,
    {
        let ghost out0 = out@;
        out.push(rows[i].duplicate());
        proof {
            assert(view_seq(out@) =~= view_seq(out0).push(rows@[i as int]@));
        }
        i += 1;
    }
    proof {
        assert(view_seq(out@) =~= window(view_seq(rows@), offset as int, limit as int));
    }
    out
}

/// The list window over the record-store table: up to `limit` rows starting
/// `offset` rows in, each copied out.
pub fn window_stores(rows: &Vec<RecordStoreModel>, offset: usize, limit: usize) -> (r: Vec<RecordStoreModel>)
    ensures
        view_seq(r@) == window(view_seq(rows@), offset as int, limit as int),
{
    let n = rows.len();
    let start = if offset > n { n } else { offset };
    let room = n - start;
    let take = if limit < room { limit } else { room };
    let end = start + take;
    let mut out: Vec<RecordStoreModel> = Vec::new();
    let mut i: usize = start;
    while i < end
        invariant
            start <= i <= end,
            end == start + take,
            end <= n,
            n == rows.len(),
            out.len() == i - start,
            forall|k: int| 0 <= k < out.len() ==> view_seq(out@)[k] == view_seq(rows@)[start + k],
        decreases end - i,
    {
        let ghost out0 = out@;
        out.push(rows[i].duplicate());
        proof {
            assert(view_seq(out@) =~= view_seq(out0).push(rows@[i as int]@));
        }
        i += 1;
    }
    proof {
        assert(view_seq(out@) =~= window(view_seq(rows@), offset as int, limit as int));
    }
    out
}

/// The list window over the note table: up to `limit` rows starting
/// `offset` rows in, each copied out.
pub fn window_notes(rows: &Vec<NoteModel>, offset: usize, limit: usize) -> (r: Vec<NoteModel>)
    ensures
        view_seq(r@) == window(view_seq(rows@), offset as int, limit as int),
{
    let n = rows.len();
    let start = if offset > n { n } else { offset };
    let room = n - start;
    let take = if limit < room { limit } else { room };
    let end = start + take;
    let mut out: Vec<NoteModel> = Vec::new();
    let mut i: usize = start;
    while i < end
        invariant
            start <= i <= end,
            end == start + take,
            end <= n,
            n == rows.len(),
            out.len() == i - start,
            forall|k: int| 0 <= k < out.len() ==> view_seq(out@)[k] == view_seq(rows@)[start + k],
        decreases end - i,
    {
        let ghost out0 = out@;
        out.push(rows[i].duplicate());
        proof {
            assert(view_seq(out@) =~= view_seq(out0).push(rows@[i as int]@));
        }
        i += 1;
    }
    proof {
        assert(view_seq(out@) =~= window(view_seq(rows@), offset as int, limit as int));
    }
    out
}

/// The list window over the user table: up to `limit` rows starting
/// `offset` rows in, each copied out.
pub fn window_user_rows(rows: &Vec<UserModel>, offset: usize, limit: usize) -> (r: Vec<UserModel>)
    ensures
        view_seq(r@) == window(view_seq(rows@), offset as int, limit as int),
{
    let n = rows.len();
    let start = if offset > n { n } else { offset };
    let room = n - start;
    let take = if limit < room { limit } else { room };
    let end = start + take;
    let mut out: Vec<UserModel> = Vec::new();
    let mut i: usize = start;
    while i < end
        invariant
            start <= i <= end,
            end == start + take,
            end <= n,
            n == rows.len(),
            out.len() == i - start,
            forall|k: int| 0 <= k < out.len() ==> view_seq(out@)[k] == view_seq(rows@)[start + k],
        decreases end - i,
    {
        let ghost out0 = out@;
        out.push(rows[i].duplicate());
        proof {
            assert(view_seq(out@) =~= view_seq(out0).push(rows@[i as int]@));
        }
        i += 1;
    }
    proof {
        assert(view_seq(out@) =~= window(view_seq(rows@), offset as int, limit as int));
    }
    out
}

/// The rows of the records table that belong to the user, in table order.
pub fn collect_user_records(rows: &Vec<RecordModel>, links: &Vec<UserRecordRow>, user_id: &str) -> (r: Vec<RecordModel>)
    ensures
        view_seq(r@) == view_seq(rows@).filter(record_owned(view_seq(links@), user_id@)),
{
    let mut out: Vec<RecordModel> = Vec::new();
    let n = rows.len();
    let mut i: usize = 0;
    while i < n
        invariant
            i <= n,
            n == rows.len(),
            view_seq(out@) == view_seq(rows@.subrange(0, i as int)).filter(
                record_owned(view_seq(links@), user_id@),
            ),
        decreases n - i,
    {
        let keep = ur_has_pair(links, user_id, rows[i].record_id.as_str());
        let ghost out0 = out@;
        if keep {
            out.push(rows[i].duplicate());
        }
        proof {
            let row = rows@[i as int]@;
            assert(record_owned(view_seq(links@), user_id@)(row) == keep);
            if keep {
                assert(view_seq(out@) =~= view_seq(out0).push(row));
            }
            assert(view_seq(rows@.subrange(0, i + 1 as int)) =~= view_seq(
                rows@.subrange(0, i as int),
            ).push(row));
            crate::seqs::lemma_filter_push(
                view_seq(rows@.subrange(0, i as int)),
                record_owned(view_seq(links@), user_id@),
                row,
            );
        }
        i += 1;
    }
    proof {
        assert(rows@.subrange(0, n as int) =~= rows@);
    }
    out
}

/// The rows of the records table that belong to the user, in table order.
pub fn collect_wishlist_records(rows: &Vec<RecordModel>, links: &Vec<WishlistRow>, user_id: &str) -> (r: Vec<RecordModel>)
    ensures
        view_seq(r@) == view_seq(rows@).filter(record_wished(view_seq(links@), user_id@)),
{
    let mut out: Vec<RecordModel> = Vec::new();
    let n = rows.len();
    let mut i: usize = 0;
    while i < n
        invariant
            i <= n,
            n == rows.len(),
            view_seq(out@) == view_seq(rows@.subrange(0, i as int)).filter(
                record_wished(view_seq(links@), user_id@),
            ),
        decreases n - i,
    {
        let keep = uw_has_pair(links, user_id, rows[i].record_id.as_str());
        let ghost out0 = out@;
        if keep {
            out.push(rows[i].duplicate());
        }
        proof {
            let row = rows@[i as int]@;
            assert(record_wished(view_seq(links@), user_id@)(row) == keep);
            if keep {
                assert(view_seq(out@) =~= view_seq(out0).push(row));
            }
            assert(view_seq(rows@.subrange(0, i + 1 as int)) =~= view_seq(
                rows@.subrange(0, i as int),
            ).push(row));
            crate::seqs::lemma_filter_push(
                view_seq(rows@.subrange(0, i as int)),
                record_wished(view_seq(links@), user_id@),
                row,
            );
        }
        i += 1;
    }
    proof {
        assert(rows@.subrange(0, n as int) =~= rows@);
    }
    out
}

/// The rows of the record-stores table that belong to the user, in table order.
pub fn collect_user_stores(rows: &Vec<RecordStoreModel>, links: &Vec<UserStoreRow>, user_id: &str) -> (r: Vec<RecordStoreModel>)
    ensures
        view_seq(r@) == view_seq(rows@).filter(store_faved(view_seq(links@), user_id@)),
{
    let mut out: Vec<RecordStoreModel> = Vec::new();
    let n = rows.len();
    let mut i: usize = 0;
    while i < n
        invariant
            i <= n,
            n == rows.len(),
            view_seq(out@) == view_seq(rows@.subrange(0, i as int)).filter(
                store_faved(view_seq(links@), user_id@),
            ),
        decreases n - i,
    {
        let keep = us_has_pair(links, user_id, rows[i].record_store_id.as_str());
        let ghost out0 = out@;
        if keep {
            out.push(rows[i].duplicate());
        }
        proof {
            let row = rows@[i as int]@;
            assert(store_faved(view_seq(links@), user_id@)(row) == keep);
            if keep {
                assert(view_seq(out@) =~= view_seq(out0).push(row));
            }
            assert(view_seq(rows@.subrange(0, i + 1 as int)) =~= view_seq(
                rows@.subrange(0, i as int),
            ).push(row));
            crate::seqs::lemma_filter_push(
                view_seq(rows@.subrange(0, i as int)),
                store_faved(view_seq(links@), user_id@),
                row,
            );
        }
        i += 1;
    }
    proof {
        assert(rows@.subrange(0, n as int) =~= rows@);
    }
    out
}


// What a successful lookup resolves to: the row holding the identifier.
pub open spec fn user_with_id(users: Seq<UserV>, id: Seq<char>) -> UserV {
    users[choose|i: int| 0 <= i < users.len() && (#[trigger] users[i]).user_id == id]
}

pub open spec fn record_with_id(records: Seq<RecordV>, id: Seq<char>) -> RecordV {
    records[choose|i: int| 0 <= i < records.len() && (#[trigger] records[i]).record_id == id]
}

pub open spec fn store_with_id(stores: Seq<RecordStoreV>, id: Seq<char>) -> RecordStoreV {
    stores[choose|i: int|
        0 <= i < stores.len() && (#[trigger] stores[i]).record_store_id == id]
}

pub open spec fn note_with_id(notes: Seq<NoteV>, id: Seq<char>) -> NoteV {
    notes[choose|i: int| 0 <= i < notes.len() && (#[trigger] notes[i]).id == id]
}

/// With identifiers unique, the row a lookup resolves to is the row found.
pub proof fn lemma_user_with_id_is(users: Seq<UserV>, id: Seq<char>, i: int)
    requires
        distinct_by(users, user_id_key()),
        0 <= i < users.len(),
        users[i].user_id == id,
    ensures
        has_user(users, id),
        user_with_id(users, id) == users[i],
{
    assert(user_id_key()(users[i]) == id);
    let j = choose|j: int| 0 <= j < users.len() && (#[trigger] users[j]).user_id == id;
    if i != j {
        assert(user_id_key()(users[i]) == user_id_key()(users[j]));
    }
}

/// With identifiers unique, the row a lookup resolves to is the row found.
pub proof fn lemma_record_with_id_is(records: Seq<RecordV>, id: Seq<char>, i: int)
    requires
        distinct_by(records, record_id_key()),
        0 <= i < records.len(),
        records[i].record_id == id,
    ensures
        has_record(records, id),
        record_with_id(records, id) == records[i],
{
    assert(record_id_key()(records[i]) == id);
    let j = choose|j: int| 0 <= j < records.len() && (#[trigger] records[j]).record_id == id;
    if i != j {
        assert(record_id_key()(records[i]) == record_id_key()(records[j]));
    }
}

/// With identifiers unique, the row a lookup resolves to is the row found.
pub proof fn lemma_store_with_id_is(stores: Seq<RecordStoreV>, id: Seq<char>, i: int)
    requires
        distinct_by(stores, store_id_key()),
        0 <= i < stores.len(),
        stores[i].record_store_id == id,
    ensures
        has_store(stores, id),
        store_with_id(stores, id) == stores[i],
{
    assert(store_id_key()(stores[i]) == id);
    let j = choose|j: int|
        0 <= j < stores.len() && (#[trigger] stores[j]).record_store_id == id;
    if i != j {
        assert(store_id_key()(stores[i]) == store_id_key()(stores[j]));
    }
}

/// With identifiers unique, the row a lookup resolves to is the row found.
pub proof fn lemma_note_with_id_is(notes: Seq<NoteV>, id: Seq<char>, i: int)
    requires
        distinct_by(notes, note_id_key()),
        0 <= i < notes.len(),
        notes[i].id == id,
    ensures
        has_note(notes, id),
        note_with_id(notes, id) == notes[i],
{
    assert(note_id_key()(notes[i]) == id);
    let j = choose|j: int| 0 <= j < notes.len() && (#[trigger] notes[j]).id == id;
    if i != j {
        assert(note_id_key()(notes[i]) == note_id_key()(notes[j]));
    }
}

/// Inserting a user with a fresh identifier, name, and email keeps the
/// store well-formed.
pub proof fn lemma_wf_push_user(db: DbV, u: UserV)
    requires
        wf_db(db),
        !has_user(db.users, u.user_id),
        !exists_key(db.users, user_name_key(), u.user_name),
        !exists_key(db.users, user_email_key(), u.user_email),
    ensures
        wf_db(DbV { users: db.users.push(u), ..db }),
{
    assert(user_id_key()(u) == u.user_id);
    assert(user_name_key()(u) == u.user_name);
    assert(user_email_key()(u) == u.user_email);
    lemma_distinct_by_push(db.users, user_id_key(), u);
    lemma_distinct_by_push(db.users, user_name_key(), u);
    lemma_distinct_by_push(db.users, user_email_key(), u);
    assert forall|i: int| 0 <= i < db.user_records.len() implies has_user(
        db.users.push(u),
        (#[trigger] db.user_records[i]).user_id,
    ) by {
        lemma_exists_key_push(db.users, user_id_key(), db.user_records[i].user_id, u);
    }
    assert forall|i: int| 0 <= i < db.user_record_stores.len() implies has_user(
        db.users.push(u),
        (#[trigger] db.user_record_stores[i]).user_key,
    ) by {
        lemma_exists_key_push(db.users, user_id_key(), db.user_record_stores[i].user_key, u);
    }
    assert forall|i: int| 0 <= i < db.user_wishlist.len() implies has_user(
        db.users.push(u),
        (#[trigger] db.user_wishlist[i]).user_id,
    ) by {
        lemma_exists_key_push(db.users, user_id_key(), db.user_wishlist[i].user_id, u);
    }
}

/// Inserting a record with a fresh identifier keeps the store well-formed.
pub proof fn lemma_wf_push_record(db: DbV, r: RecordV)
    requires
        wf_db(db),
        !has_record(db.records, r.record_id),
    ensures
        wf_db(DbV { records: db.records.push(r), ..db }),
{
    assert(record_id_key()(r) == r.record_id);
    lemma_distinct_by_push(db.records, record_id_key(), r);
    assert forall|i: int| 0 <= i < db.user_records.len() implies has_record(
        db.records.push(r),
        (#[trigger] db.user_records[i]).record_id,
    ) by {
        lemma_exists_key_push(db.records, record_id_key(), db.user_records[i].record_id, r);
    }
    assert forall|i: int| 0 <= i < db.user_wishlist.len() implies has_record(
        db.records.push(r),
        (#[trigger] db.user_wishlist[i]).record_id,
    ) by {
        lemma_exists_key_push(db.records, record_id_key(), db.user_wishlist[i].record_id, r);
    }
}

/// Inserting a store with a fresh identifier keeps the store well-formed.
pub proof fn lemma_wf_push_store(db: DbV, s: RecordStoreV)
    requires
        wf_db(db),
        !has_store(db.record_stores, s.record_store_id),
    ensures
        wf_db(DbV { record_stores: db.record_stores.push(s), ..db }),
{
    assert(store_id_key()(s) == s.record_store_id);
    lemma_distinct_by_push(db.record_stores, store_id_key(), s);
    assert forall|i: int| 0 <= i < db.user_record_stores.len() implies has_store(
        db.record_stores.push(s),
        (#[trigger] db.user_record_stores[i]).record_store_id,
    ) by {
        lemma_exists_key_push(
            db.record_stores,
            store_id_key(),
            db.user_record_stores[i].record_store_id,
            s,
        );
    }
}

/// Inserting a note with a fresh identifier and title keeps the store
/// well-formed.
pub proof fn lemma_wf_push_note(db: DbV, n: NoteV)
    requires
        wf_db(db),
        !has_note(db.notes, n.id),
        !has_note_title(db.notes, n.title),
    ensures
        wf_db(DbV { notes: db.notes.push(n), ..db }),
{
    assert(note_id_key()(n) == n.id);
    assert(note_title_key()(n) == n.title);
    lemma_distinct_by_push(db.notes, note_id_key(), n);
    lemma_distinct_by_push(db.notes, note_title_key(), n);
}

/// Linking an existing user to an existing record under a fresh join-row
/// identifier keeps the store well-formed.
pub proof fn lemma_wf_push_ur(db: DbV, l: UserRecordV)
    requires
        wf_db(db),
        !exists_key(db.user_records, ur_id_key(), l.user_record_id),
        has_user(db.users, l.user_id),
        has_record(db.records, l.record_id),
    ensures
        wf_db(DbV { user_records: db.user_records.push(l), ..db }),
{
    assert(ur_id_key()(l) == l.user_record_id);
    lemma_distinct_by_push(db.user_records, ur_id_key(), l);
    let out = db.user_records.push(l);
    assert forall|i: int| 0 <= i < out.len() implies has_user(
        db.users,
        (#[trigger] out[i]).user_id,
    ) && has_record(db.records, out[i].record_id) by {
        if i < db.user_records.len() {
            assert(out[i] == db.user_records[i]);
        } else {
            assert(out[i] == l);
        }
    }
}

/// Linking an existing user to an existing store under a fresh join-row
/// identifier keeps the store well-formed.
pub proof fn lemma_wf_push_us(db: DbV, l: UserStoreV)
    requires
        wf_db(db),
        !exists_key(db.user_record_stores, us_id_key(), l.user_favorite_stores_id),
        has_user(db.users, l.user_key),
        has_store(db.record_stores, l.record_store_id),
    ensures
        wf_db(DbV { user_record_stores: db.user_record_stores.push(l), ..db }),
{
    assert(us_id_key()(l) == l.user_favorite_stores_id);
    lemma_distinct_by_push(db.user_record_stores, us_id_key(), l);
    let out = db.user_record_stores.push(l);
    assert forall|i: int| 0 <= i < out.len() implies has_user(
        db.users,
        (#[trigger] out[i]).user_key,
    ) && has_store(db.record_stores, out[i].record_store_id) by {
        if i < db.user_record_stores.len() {
            assert(out[i] == db.user_record_stores[i]);
        } else {
            assert(out[i] == l);
        }
    }
}

/// Wishing an existing record for an existing user under a fresh join-row
/// identifier keeps the store well-formed.
pub proof fn lemma_wf_push_uw(db: DbV, l: WishlistV)
    requires
        wf_db(db),
        !exists_key(db.user_wishlist, uw_id_key(), l.user_wish_list_id),
        has_user(db.users, l.user_id),
        has_record(db.records, l.record_id),
    ensures
        wf_db(DbV { user_wishlist: db.user_wishlist.push(l), ..db }),
{
    assert(uw_id_key()(l) == l.user_wish_list_id);
    lemma_distinct_by_push(db.user_wishlist, uw_id_key(), l);
    let out = db.user_wishlist.push(l);
    assert forall|i: int| 0 <= i < out.len() implies has_user(
        db.users,
        (#[trigger] out[i]).user_id,
    ) && has_record(db.records, out[i].record_id) by {
        if i < db.user_wishlist.len() {
            assert(out[i] == db.user_wishlist[i]);
        } else {
            assert(out[i] == l);
        }
    }
}

/// Dropping collection rows alone, whatever the criterion, keeps the
/// store well-formed.
pub proof fn lemma_wf_filter_ur(db: DbV, p: spec_fn(UserRecordV) -> bool)
    requires
        wf_db(db),
    ensures
        wf_db(DbV { user_records: db.user_records.filter(p), ..db }),
{
    lemma_filter_distinct_by(db.user_records, p, ur_id_key());
    lemma_filter_elements(db.user_records, p);
    let ur = db.user_records.filter(p);
    assert forall|i: int| 0 <= i < ur.len() implies has_user(
        db.users,
        (#[trigger] ur[i]).user_id,
    ) && has_record(db.records, ur[i].record_id) by {
        let j = choose|j: int| 0 <= j < db.user_records.len() && db.user_records[j] == ur[i];
        assert(db.user_records[j] == ur[i]);
    }
}

/// Dropping favourite-store rows alone, whatever the criterion, keeps the
/// store well-formed.
pub proof fn lemma_wf_filter_us(db: DbV, q: spec_fn(UserStoreV) -> bool)
    requires
        wf_db(db),
    ensures
        wf_db(DbV { user_record_stores: db.user_record_stores.filter(q), ..db }),
{
    lemma_filter_distinct_by(db.user_record_stores, q, us_id_key());
    lemma_filter_elements(db.user_record_stores, q);
    let us = db.user_record_stores.filter(q);
    assert forall|i: int| 0 <= i < us.len() implies has_user(
        db.users,
        (#[trigger] us[i]).user_key,
    ) && has_store(db.record_stores, us[i].record_store_id) by {
        let j = choose|j: int|
            0 <= j < db.user_record_stores.len() && db.user_record_stores[j] == us[i];
        assert(db.user_record_stores[j] == us[i]);
    }
}

/// Dropping wishlist rows alone, whatever the criterion, keeps the store
/// well-formed.
pub proof fn lemma_wf_filter_uw(db: DbV, w: spec_fn(WishlistV) -> bool)
    requires
        wf_db(db),
    ensures
        wf_db(DbV { user_wishlist: db.user_wishlist.filter(w), ..db }),
{
    lemma_filter_distinct_by(db.user_wishlist, w, uw_id_key());
    lemma_filter_elements(db.user_wishlist, w);
    let uw = db.user_wishlist.filter(w);
    assert forall|i: int| 0 <= i < uw.len() implies has_user(
        db.users,
        (#[trigger] uw[i]).user_id,
    ) && has_record(db.records, uw[i].record_id) by {
        let j = choose|j: int| 0 <= j < db.user_wishlist.len() && db.user_wishlist[j] == uw[i];
        assert(db.user_wishlist[j] == uw[i]);
    }
}

/// Deleting a user and every association row that names them keeps the
/// store well-formed.
pub proof fn lemma_wf_delete_user(db: DbV, id: Seq<char>)
    requires
        wf_db(db),
    ensures
        wf_db(
            DbV {
                users: db.users.filter(user_not_id(id)),
                user_records: db.user_records.filter(ur_not_user(id)),
                user_record_stores: db.user_record_stores.filter(us_not_user(id)),
                user_wishlist: db.user_wishlist.filter(uw_not_user(id)),
                ..db
            },
        ),
{
    lemma_filter_distinct_by(db.users, user_not_id(id), user_id_key());
    lemma_filter_distinct_by(db.users, user_not_id(id), user_name_key());
    lemma_filter_distinct_by(db.users, user_not_id(id), user_email_key());
    lemma_filter_distinct_by(db.user_records, ur_not_user(id), ur_id_key());
    lemma_filter_distinct_by(db.user_record_stores, us_not_user(id), us_id_key());
    lemma_filter_distinct_by(db.user_wishlist, uw_not_user(id), uw_id_key());
    lemma_filter_elements(db.user_records, ur_not_user(id));
    lemma_filter_elements(db.user_record_stores, us_not_user(id));
    lemma_filter_elements(db.user_wishlist, uw_not_user(id));
    let users = db.users.filter(user_not_id(id));
    let ur = db.user_records.filter(ur_not_user(id));
    assert forall|i: int| 0 <= i < ur.len() implies has_user(users, (#[trigger] ur[i]).user_id)
        && has_record(db.records, ur[i].record_id) by {
        let j = choose|j: int| 0 <= j < db.user_records.len() && db.user_records[j] == ur[i];
        assert(db.user_records[j] == ur[i]);
        assert(ur_not_user(id)(ur[i]));
        lemma_exists_key_filter(db.users, user_id_key(), ur[i].user_id, user_not_id(id));
    }
    let us = db.user_record_stores.filter(us_not_user(id));
    assert forall|i: int| 0 <= i < us.len() implies has_user(users, (#[trigger] us[i]).user_key)
        && has_store(db.record_stores, us[i].record_store_id) by {
        let j = choose|j: int|
            0 <= j < db.user_record_stores.len() && db.user_record_stores[j] == us[i];
        assert(db.user_record_stores[j] == us[i]);
        assert(us_not_user(id)(us[i]));
        lemma_exists_key_filter(db.users, user_id_key(), us[i].user_key, user_not_id(id));
    }
    let uw = db.user_wishlist.filter(uw_not_user(id));
    assert forall|i: int| 0 <= i < uw.len() implies has_user(users, (#[trigger] uw[i]).user_id)
        && has_record(db.records, uw[i].record_id) by {
        let j = choose|j: int| 0 <= j < db.user_wishlist.len() && db.user_wishlist[j] == uw[i];
        assert(db.user_wishlist[j] == uw[i]);
        assert(uw_not_user(id)(uw[i]));
        lemma_exists_key_filter(db.users, user_id_key(), uw[i].user_id, user_not_id(id));
    }
}

/// Deleting a record and every association row that names it keeps the
/// store well-formed.
pub proof fn lemma_wf_delete_record(db: DbV, id: Seq<char>)
    requires
        wf_db(db),
    ensures
        wf_db(
            DbV {
                records: db.records.filter(record_not_id(id)),
                user_records: db.user_records.filter(ur_not_record(id)),
                user_wishlist: db.user_wishlist.filter(uw_not_record(id)),
                ..db
            },
        ),
{
    lemma_filter_distinct_by(db.records, record_not_id(id), record_id_key());
    lemma_filter_distinct_by(db.user_records, ur_not_record(id), ur_id_key());
    lemma_filter_distinct_by(db.user_wishlist, uw_not_record(id), uw_id_key());
    lemma_filter_elements(db.user_records, ur_not_record(id));
    lemma_filter_elements(db.user_wishlist, uw_not_record(id));
    let records = db.records.filter(record_not_id(id));
    let ur = db.user_records.filter(ur_not_record(id));
    assert forall|i: int| 0 <= i < ur.len() implies has_user(
        db.users,
        (#[trigger] ur[i]).user_id,
    ) && has_record(records, ur[i].record_id) by {
        let j = choose|j: int| 0 <= j < db.user_records.len() && db.user_records[j] == ur[i];
        assert(db.user_records[j] == ur[i]);
        assert(ur_not_record(id)(ur[i]));
        lemma_exists_key_filter(db.records, record_id_key(), ur[i].record_id, record_not_id(id));
    }
    let uw = db.user_wishlist.filter(uw_not_record(id));
    assert forall|i: int| 0 <= i < uw.len() implies has_user(
        db.users,
        (#[trigger] uw[i]).user_id,
    ) && has_record(records, uw[i].record_id) by {
        let j = choose|j: int| 0 <= j < db.user_wishlist.len() && db.user_wishlist[j] == uw[i];
        assert(db.user_wishlist[j] == uw[i]);
        assert(uw_not_record(id)(uw[i]));
        lemma_exists_key_filter(db.records, record_id_key(), uw[i].record_id, record_not_id(id));
    }
}

/// Deleting a store and every association row that names it keeps the
/// store well-formed.
pub proof fn lemma_wf_delete_store(db: DbV, id: Seq<char>)
    requires
        wf_db(db),
    ensures
        wf_db(
            DbV {
                record_stores: db.record_stores.filter(store_not_id(id)),
                user_record_stores: db.user_record_stores.filter(us_not_store(id)),
                ..db
            },
        ),
{
    lemma_filter_distinct_by(db.record_stores, store_not_id(id), store_id_key());
    lemma_filter_distinct_by(db.user_record_stores, us_not_store(id), us_id_key());
    lemma_filter_elements(db.user_record_stores, us_not_store(id));
    let stores = db.record_stores.filter(store_not_id(id));
    let us = db.user_record_stores.filter(us_not_store(id));
    assert forall|i: int| 0 <= i < us.len() implies has_user(
        db.users,
        (#[trigger] us[i]).user_key,
    ) && has_store(stores, us[i].record_store_id) by {
        let j = choose|j: int|
            0 <= j < db.user_record_stores.len() && db.user_record_stores[j] == us[i];
        assert(db.user_record_stores[j] == us[i]);
        assert(us_not_store(id)(us[i]));
        lemma_exists_key_filter(
            db.record_stores,
            store_id_key(),
            us[i].record_store_id,
            store_not_id(id),
        );
    }
}

/// Deleting a note keeps the store well-formed.
pub proof fn lemma_wf_delete_note(db: DbV, id: Seq<char>)
    requires
        wf_db(db),
    ensures
        wf_db(DbV { notes: db.notes.filter(note_not_id(id)), ..db }),
{
    lemma_filter_distinct_by(db.notes, note_not_id(id), note_id_key());
    lemma_filter_distinct_by(db.notes, note_not_id(id), note_title_key());
}

/// Rewriting a user row in place, with the identifier kept and the new
/// name and email free of conflicts, keeps the store well-formed.
pub proof fn lemma_wf_update_user(db: DbV, i: int, u: UserV)
    requires
        wf_db(db),
        0 <= i < db.users.len(),
        u.user_id == db.users[i].user_id,
        !user_conflict_except(db.users, u.user_name, u.user_email, u.user_id),
    ensures
        wf_db(DbV { users: db.users.update(i, u), ..db }),
{
    let out = db.users.update(i, u);
    assert forall|a: int, b: int|
        #![trigger out[a], out[b]]
        0 <= a < b < out.len() implies user_id_key()(out[a]) != user_id_key()(out[b])
            && user_name_key()(out[a]) != user_name_key()(out[b]) && user_email_key()(out[a])
            != user_email_key()(out[b]) by {
        assert(db.users[a] == if a == i { db.users[i] } else { out[a] });
        assert(db.users[b] == if b == i { db.users[i] } else { out[b] });
        if a == i {
            assert(out[b] == db.users[b]);
            if out[b].user_name == u.user_name || out[b].user_email == u.user_email {
                assert(db.users[b].user_id != u.user_id);
            }
        } else if b == i {
            assert(out[a] == db.users[a]);
            if out[a].user_name == u.user_name || out[a].user_email == u.user_email {
                assert(db.users[a].user_id != u.user_id);
            }
        }
    }
    assert forall|k: int| 0 <= k < db.user_records.len() implies has_user(
        out,
        (#[trigger] db.user_records[k]).user_id,
    ) by {
        let j = choose|j: int|
            0 <= j < db.users.len() && (#[trigger] db.users[j]).user_id
                == db.user_records[k].user_id;
        assert(out[j].user_id == db.users[j].user_id);
        assert(user_id_key()(out[j]) == db.user_records[k].user_id);
    }
    assert forall|k: int| 0 <= k < db.user_record_stores.len() implies has_user(
        out,
        (#[trigger] db.user_record_stores[k]).user_key,
    ) by {
        let j = choose|j: int|
            0 <= j < db.users.len() && (#[trigger] db.users[j]).user_id
                == db.user_record_stores[k].user_key;
        assert(out[j].user_id == db.users[j].user_id);
        assert(user_id_key()(out[j]) == db.user_record_stores[k].user_key);
    }
    assert forall|k: int| 0 <= k < db.user_wishlist.len() implies has_user(
        out,
        (#[trigger] db.user_wishlist[k]).user_id,
    ) by {
        let j = choose|j: int|
            0 <= j < db.users.len() && (#[trigger] db.users[j]).user_id
                == db.user_wishlist[k].user_id;
        assert(out[j].user_id == db.users[j].user_id);
        assert(user_id_key()(out[j]) == db.user_wishlist[k].user_id);
    }
}

/// Rewriting a record row in place with its identifier kept keeps the
/// store well-formed.
pub proof fn lemma_wf_update_record(db: DbV, i: int, r: RecordV)
    requires
        wf_db(db),
        0 <= i < db.records.len(),
        r.record_id == db.records[i].record_id,
    ensures
        wf_db(DbV { records: db.records.update(i, r), ..db }),
{
    let out = db.records.update(i, r);
    assert forall|a: int, b: int|
        #![trigger out[a], out[b]]
        0 <= a < b < out.len() implies record_id_key()(out[a]) != record_id_key()(out[b]) by {
        assert(db.records[a] == if a == i { db.records[i] } else { out[a] });
        assert(db.records[b] == if b == i { db.records[i] } else { out[b] });
    }
    assert forall|k: int| 0 <= k < db.user_records.len() implies has_record(
        out,
        (#[trigger] db.user_records[k]).record_id,
    ) by {
        let j = choose|j: int|
            0 <= j < db.records.len() && (#[trigger] db.records[j]).record_id
                == db.user_records[k].record_id;
        assert(out[j].record_id == db.records[j].record_id);
        assert(record_id_key()(out[j]) == db.user_records[k].record_id);
    }
    assert forall|k: int| 0 <= k < db.user_wishlist.len() implies has_record(
        out,
        (#[trigger] db.user_wishlist[k]).record_id,
    ) by {
        let j = choose|j: int|
            0 <= j < db.records.len() && (#[trigger] db.records[j]).record_id
                == db.user_wishlist[k].record_id;
        assert(out[j].record_id == db.records[j].record_id);
        assert(record_id_key()(out[j]) == db.user_wishlist[k].record_id);
    }
}

/// Rewriting a store row in place with its identifier kept keeps the
/// store well-formed.
pub proof fn lemma_wf_update_store(db: DbV, i: int, s: RecordStoreV)
    requires
        wf_db(db),
        0 <= i < db.record_stores.len(),
        s.record_store_id == db.record_stores[i].record_store_id,
    ensures
        wf_db(DbV { record_stores: db.record_stores.update(i, s), ..db }),
{
    let out = db.record_stores.update(i, s);
    assert forall|a: int, b: int|
        #![trigger out[a], out[b]]
        0 <= a < b < out.len() implies store_id_key()(out[a]) != store_id_key()(out[b]) by {
        assert(db.record_stores[a] == if a == i { db.record_stores[i] } else { out[a] });
        assert(db.record_stores[b] == if b == i { db.record_stores[i] } else { out[b] });
    }
    assert forall|k: int| 0 <= k < db.user_record_stores.len() implies has_store(
        out,
        (#[trigger] db.user_record_stores[k]).record_store_id,
    ) by {
        let j = choose|j: int|
            0 <= j < db.record_stores.len() && (#[trigger] db.record_stores[j]).record_store_id
                == db.user_record_stores[k].record_store_id;
        assert(out[j].record_store_id == db.record_stores[j].record_store_id);
        assert(store_id_key()(out[j]) == db.user_record_stores[k].record_store_id);
    }
}

/// Rewriting a note row in place, with the identifier kept and the new
/// title free of conflicts, keeps the store well-formed.
pub proof fn lemma_wf_update_note(db: DbV, i: int, n: NoteV)
    requires
        wf_db(db),
        0 <= i < db.notes.len(),
        n.id == db.notes[i].id,
        !note_conflict_except(db.notes, n.title, n.id),
    ensures
        wf_db(DbV { notes: db.notes.update(i, n), ..db }),
{
    let out = db.notes.update(i, n);
    assert forall|a: int, b: int|
        #![trigger out[a], out[b]]
        0 <= a < b < out.len() implies note_id_key()(out[a]) != note_id_key()(out[b])
            && note_title_key()(out[a]) != note_title_key()(out[b]) by {
        assert(db.notes[a] == if a == i { db.notes[i] } else { out[a] });
        assert(db.notes[b] == if b == i { db.notes[i] } else { out[b] });
        if a == i {
            if out[b].title == n.title {
                assert(db.notes[b].id != n.id);
            }
        } else if b == i {
            if out[a].title == n.title {
                assert(db.notes[a].id != n.id);
            }
        }
    }
}

// The natural-key orders the list queries sort by.
pub open spec fn store_name_leq() -> spec_fn(RecordStoreV, RecordStoreV) -> bool {
    |a: RecordStoreV, b: RecordStoreV| lex_le(a.store_name, b.store_name)
}

pub open spec fn user_name_leq() -> spec_fn(UserV, UserV) -> bool {
    |a: UserV, b: UserV| lex_le(a.user_name, b.user_name)
}

pub open spec fn artist_leq() -> spec_fn(RecordV, RecordV) -> bool {
    |a: RecordV, b: RecordV| lex_le(a.artist, b.artist)
}

pub open spec fn note_id_leq() -> spec_fn(NoteV, NoteV) -> bool {
    |a: NoteV, b: NoteV| lex_le(a.id, b.id)
}


/// Where a row ranks in `out` by store name: the first index whose row does
/// not precede or equal it.
fn sorted_pos_store(out: &Vec<RecordStoreModel>, row: &RecordStoreModel) -> (j: usize)
    ensures
        j <= out.len(),
        forall|k: int| 0 <= k < j ==> store_name_leq()(#[trigger] view_seq(out@)[k], row@),
        j < out.len() ==> !store_name_leq()(view_seq(out@)[j as int], row@),
{
    let n = out.len();
    let mut j: usize = 0;
    while j < n
        invariant
            j <= n,
            n == out.len(),
            forall|k: int| 0 <= k < j ==> store_name_leq()(#[trigger] view_seq(out@)[k], row@),
        decreases n - j,
    {
        let le = str_le(out[j].store_name.as_str(), row.store_name.as_str());
        proof {
            assert(store_name_leq()(view_seq(out@)[j as int], row@) == le);
        }
        if !le {
            return j;
        }
        j += 1;
    }
    j
}

/// Inserts a row into a run ordered by store name, after every row that
/// precedes or equals it.
fn insert_sorted_store(out: &mut Vec<RecordStoreModel>, row: RecordStoreModel)
    ensures
        view_seq(final (out)@) == spec_insert_by(row@, view_seq(old(out)@), store_name_leq()),
{
    let j = sorted_pos_store(out, &row);
    let ghost out0 = view_seq(out@);
    let ghost rowv = row@;
    out.insert(j, row);
    proof {
        lemma_insert_by_split(rowv, out0, store_name_leq(), j as int);
        assert(view_seq(out@) =~= out0.subrange(0, j as int) + seq![rowv] + out0.subrange(
            j as int,
            out0.len() as int,
        ));
    }
}

/// The table's rows in store name order, equal keys keeping their stored
/// order: what an ordered list query returns before windowing.
pub fn sort_stores_by_name(rows: &Vec<RecordStoreModel>) -> (r: Vec<RecordStoreModel>)
    ensures
        view_seq(r@) == spec_sort_by(view_seq(rows@), store_name_leq()),
{
    let mut out: Vec<RecordStoreModel> = Vec::new();
    let n = rows.len();
    let mut i: usize = 0;
    proof {
        assert(view_seq(rows@.subrange(0, 0)) =~= Seq::<RecordStoreV>::empty());
    }
    while i < n
        invariant
            i <= n,
            n == rows.len(),
            view_seq(out@) == spec_sort_by(view_seq(rows@.subrange(0, i as int)), store_name_leq()),
        decreases n - i,
    {
        insert_sorted_store(&mut out, rows[i].duplicate());
        proof {
            assert(view_seq(rows@.subrange(0, i + 1 as int)) =~= view_seq(
                rows@.subrange(0, i as int),
            ).push(rows@[i as int]@));
            lemma_sort_by_push(view_seq(rows@.subrange(0, i as int)), rows@[i as int]@, store_name_leq());
        }
        i += 1;
    }
    proof {
        assert(rows@.subrange(0, n as int) =~= rows@);
    }
    out
}

/// Where a row ranks in `out` by user name: the first index whose row does
/// not precede or equal it.
fn sorted_pos_user(out: &Vec<UserModel>, row: &UserModel) -> (j: usize)
    ensures
        j <= out.len(),
        forall|k: int| 0 <= k < j ==> user_name_leq()(#[trigger] view_seq(out@)[k], row@),
        j < out.len() ==> !user_name_leq()(view_seq(out@)[j as int], row@),
{
    let n = out.len();
    let mut j: usize = 0;
    while j < n
        invariant
            j <= n,
            n == out.len(),
            forall|k: int| 0 <= k < j ==> user_name_leq()(#[trigger] view_seq(out@)[k], row@),
        decreases n - j,
    {
        let le = str_le(out[j].user_name.as_str(), row.user_name.as_str());
        proof {
            assert(user_name_leq()(view_seq(out@)[j as int], row@) == le);
        }
        if !le {
            return j;
        }
        j += 1;
    }
    j
}

/// Inserts a row into a run ordered by user name, after every row that
/// precedes or equals it.
fn insert_sorted_user(out: &mut Vec<UserModel>, row: UserModel)
    ensures
        view_seq(final (out)@) == spec_insert_by(row@, view_seq(old(out)@), user_name_leq()),
{
    let j = sorted_pos_user(out, &row);
    let ghost out0 = view_seq(out@);
    let ghost rowv = row@;
    out.insert(j, row);
    proof {
        lemma_insert_by_split(rowv, out0, user_name_leq(), j as int);
        assert(view_seq(out@) =~= out0.subrange(0, j as int) + seq![rowv] + out0.subrange(
            j as int,
            out0.len() as int,
        ));
    }
}

/// The table's rows in user name order, equal keys keeping their stored
/// order: what an ordered list query returns before windowing.
pub fn sort_users_by_name(rows: &Vec<UserModel>) -> (r: Vec<UserModel>)
    ensures
        view_seq(r@) == spec_sort_by(view_seq(rows@), user_name_leq()),
{
    let mut out: Vec<UserModel> = Vec::new();
    let n = rows.len();
    let mut i: usize = 0;
    proof {
        assert(view_seq(rows@.subrange(0, 0)) =~= Seq::<UserV>::empty());
    }
    while i < n
        invariant
            i <= n,
            n == rows.len(),
            view_seq(out@) == spec_sort_by(view_seq(rows@.subrange(0, i as int)), user_name_leq()),
        decreases n - i,
    {
        insert_sorted_user(&mut out, rows[i].duplicate());
        proof {
            assert(view_seq(rows@.subrange(0, i + 1 as int)) =~= view_seq(
                rows@.subrange(0, i as int),
            ).push(rows@[i as int]@));
            lemma_sort_by_push(view_seq(rows@.subrange(0, i as int)), rows@[i as int]@, user_name_leq());
        }
        i += 1;
    }
    proof {
        assert(rows@.subrange(0, n as int) =~= rows@);
    }
    out
}

/// Where a row ranks in `out` by artist: the first index whose row does
/// not precede or equal it.
fn sorted_pos_record(out: &Vec<RecordModel>, row: &RecordModel) -> (j: usize)
    ensures
        j <= out.len(),
        forall|k: int| 0 <= k < j ==> artist_leq()(#[trigger] view_seq(out@)[k], row@),
        j < out.len() ==> !artist_leq()(view_seq(out@)[j as int], row@),
{
    let n = out.len();
    let mut j: usize = 0;
    while j < n
        invariant
            j <= n,
            n == out.len(),
            forall|k: int| 0 <= k < j ==> artist_leq()(#[trigger] view_seq(out@)[k], row@),
        decreases n - j,
    {
        let le = str_le(out[j].artist.as_str(), row.artist.as_str());
        proof {
            assert(artist_leq()(view_seq(out@)[j as int], row@) == le);
        }
        if !le {
            return j;
        }
        j += 1;
    }
    j
}

/// Inserts a row into a run ordered by artist, after every row that
/// precedes or equals it.
fn insert_sorted_record(out: &mut Vec<RecordModel>, row: RecordModel)
    ensures
        view_seq(final (out)@) == spec_insert_by(row@, view_seq(old(out)@), artist_leq()),
{
    let j = sorted_pos_record(out, &row);
    let ghost out0 = view_seq(out@);
    let ghost rowv = row@;
    out.insert(j, row);
    proof {
        lemma_insert_by_split(rowv, out0, artist_leq(), j as int);
        assert(view_seq(out@) =~= out0.subrange(0, j as int) + seq![rowv] + out0.subrange(
            j as int,
            out0.len() as int,
        ));
    }
}

/// The table's rows in artist order, equal keys keeping their stored
/// order: what an ordered list query returns before windowing.
pub fn sort_records_by_artist(rows: &Vec<RecordModel>) -> (r: Vec<RecordModel>)
    ensures
        view_seq(r@) == spec_sort_by(view_seq(rows@), artist_leq()),
{
    let mut out: Vec<RecordModel> = Vec::new();
    let n = rows.len();
    let mut i: usize = 0;
    proof {
        assert(view_seq(rows@.subrange(0, 0)) =~= Seq::<RecordV>::empty());
    }
    while i < n
        invariant
            i <= n,
            n == rows.len(),
            view_seq(out@) == spec_sort_by(view_seq(rows@.subrange(0, i as int)), artist_leq()),
        decreases n - i,
    {
        insert_sorted_record(&mut out, rows[i].duplicate());
        proof {
            assert(view_seq(rows@.subrange(0, i + 1 as int)) =~= view_seq(
                rows@.subrange(0, i as int),
            ).push(rows@[i as int]@));
            lemma_sort_by_push(view_seq(rows@.subrange(0, i as int)), rows@[i as int]@, artist_leq());
        }
        i += 1;
    }
    proof {
        assert(rows@.subrange(0, n as int) =~= rows@);
    }
    out
}

/// Where a row ranks in `out` by identifier: the first index whose row does
/// not precede or equal it.
fn sorted_pos_note(out: &Vec<NoteModel>, row: &NoteModel) -> (j: usize)
    ensures
        j <= out.len(),
        forall|k: int| 0 <= k < j ==> note_id_leq()(#[trigger] view_seq(out@)[k], row@),
        j < out.len() ==> !note_id_leq()(view_seq(out@)[j as int], row@),
{
    let n = out.len();
    let mut j: usize = 0;
    while j < n
        invariant
            j <= n,
            n == out.len(),
            forall|k: int| 0 <= k < j ==> note_id_leq()(#[trigger] view_seq(out@)[k], row@),
        decreases n - j,
    {
        let le = str_le(out[j].id.as_str(), row.id.as_str());
        proof {
            assert(note_id_leq()(view_seq(out@)[j as int], row@) == le);
        }
        if !le {
            return j;
        }
        j += 1;
    }
    j
}

/// Inserts a row into a run ordered by identifier, after every row that
/// precedes or equals it.
fn insert_sorted_note(out: &mut Vec<NoteModel>, row: NoteModel)
    ensures
        view_seq(final (out)@) == spec_insert_by(row@, view_seq(old(out)@), note_id_leq()),
{
    let j = sorted_pos_note(out, &row);
    let ghost out0 = view_seq(out@);
    let ghost rowv = row@;
    out.insert(j, row);
    proof {
        lemma_insert_by_split(rowv, out0, note_id_leq(), j as int);
        assert(view_seq(out@) =~= out0.subrange(0, j as int) + seq![rowv] + out0.subrange(
            j as int,
            out0.len() as int,
        ));
    }
}

/// The table's rows in identifier order, equal keys keeping their stored
/// order: what an ordered list query returns before windowing.
pub fn sort_notes_by_id(rows: &Vec<NoteModel>) -> (r: Vec<NoteModel>)
    ensures
        view_seq(r@) == spec_sort_by(view_seq(rows@), note_id_leq()),
{
    let mut out: Vec<NoteModel> = Vec::new();
    let n = rows.len();
    let mut i: usize = 0;
    proof {
        assert(view_seq(rows@.subrange(0, 0)) =~= Seq::<NoteV>::empty());
    }
    while i < n
        invariant
            i <= n,
            n == rows.len(),
            view_seq(out@) == spec_sort_by(view_seq(rows@.subrange(0, i as int)), note_id_leq()),
        decreases n - i,
    {
        insert_sorted_note(&mut out, rows[i].duplicate());
        proof {
            assert(view_seq(rows@.subrange(0, i + 1 as int)) =~= view_seq(
                rows@.subrange(0, i as int),
            ).push(rows@[i as int]@));
            lemma_sort_by_push(view_seq(rows@.subrange(0, i as int)), rows@[i as int]@, note_id_leq());
        }
        i += 1;
    }
    proof {
        assert(rows@.subrange(0, n as int) =~= rows@);
    }
    out
}


} // verus!
