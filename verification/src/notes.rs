use vstd::prelude::*;
use vstd::string::*;

use crate::db::{
    find_note, has_note, has_note_title, lemma_note_with_id_is, lemma_wf_delete_note,
    note_id_leq, sort_notes_by_id,
    lemma_wf_push_note, lemma_wf_update_note, note_conflict_except, note_conflicts_except,
    note_id_key, note_not_id, note_title_taken, note_with_id, retain_notes_not_id, window_notes,
    Db, DbV,
};
use crate::error::ApiError;
use crate::order::spec_sort_by;
use crate::paging::{page_window, spec_limit, spec_offset, valid_filter, window, FilterOptions};
use crate::seqs::{lemma_filter_all, lemma_filter_shorter, view_seq};
use crate::text::concat3;

verus! {

/// A stored note row. Timestamps are unix seconds, set when the row is
/// created and whenever it is rewritten.
pub struct NoteModel {
    pub id: String,
    pub title: String,
    pub content: String,
    pub category: String,
    pub published: bool,
    pub created_at: i64,
    pub updated_at: i64,
}

/// The mathematical value of a stored note row.
pub ghost struct NoteV {
    pub id: Seq<char>,
    pub title: Seq<char>,
    pub content: Seq<char>,
    pub category: Seq<char>,
    pub published: bool,
    pub created_at: i64,
    pub updated_at: i64,
}

impl View for NoteModel {
    type V = NoteV;

    open spec fn view(&self) -> NoteV {
        NoteV {
            id: self.id@,
            title: self.title@,
            content: self.content@,
            category: self.category@,
            published: self.published,
            created_at: self.created_at,
            updated_at: self.updated_at,
        }
    }
}

impl NoteModel {
    /// A field-for-field copy of the row.
    pub fn duplicate(&self) -> (r: NoteModel)
        ensures
            r@ == self@,
    {
        NoteModel {
            id: self.id.clone(),
            title: self.title.clone(),
            content: self.content.clone(),
            category: self.category.clone(),
            published: self.published,
            created_at: self.created_at,
            updated_at: self.updated_at,
        }
    }
}

/// The body of a note create request. The category is optional and
/// defaults to the empty string; a new note starts unpublished.
pub struct CreateNoteSchema {
    pub title: String,
    pub content: String,
    pub category: Option<String>,
}

/// The body of a note update request: a partial schema where every field
/// is optional. An absent field falls back to the stored value.
pub struct UpdateNoteSchema {
    pub title: Option<String>,
    pub content: Option<String>,
    pub category: Option<String>,
    pub published: Option<bool>,
}


/// The row a note create request stores: the body's fields under the
/// generated identifier, the empty string for an absent category, not yet
/// published, and both timestamps set to the creation instant.
pub open spec fn spec_new_note(body: CreateNoteSchema, id: Seq<char>, now: i64) -> NoteV {
    NoteV {
        id,
        title: body.title@,
        content: body.content@,
        category: match body.category {
            Some(c) => c@,
            None => ""@,
        },
        published: false,
        created_at: now,
        updated_at: now,
    }
}

/// The patch-merge of an update body over a stored note: each supplied
/// field replaces the stored value, each absent field keeps it; the
/// rewrite stamps the update instant, and the identifier and creation
/// instant never change.
pub open spec fn spec_merge_note(n: NoteV, body: UpdateNoteSchema, now: i64) -> NoteV {
    NoteV {
        id: n.id,
        title: match body.title {
            Some(t) => t@,
            None => n.title,
        },
        content: match body.content {
            Some(c) => c@,
            None => n.content,
        },
        category: match body.category {
            Some(c) => c@,
            None => n.category,
        },
        published: match body.published {
            Some(p) => p,
            None => n.published,
        },
        created_at: n.created_at,
        updated_at: now,
    }
}

/// Builds the stored row for a note create request.
pub fn build_note(body: &CreateNoteSchema, id: &str, now: i64) -> (r: NoteModel)
    ensures
        r@ == spec_new_note(*body, id@, now),
{
    proof {
        reveal_strlit("");
        assert(""@ =~= Seq::<char>::empty());
    }
    NoteModel {
        id: String::from_str(id),
        title: body.title.clone(),
        content: body.content.clone(),
        category: match &body.category {
            Some(c) => c.clone(),
            None => String::new(),
        },
        published: false,
        created_at: now,
        updated_at: now,
    }
}

/// Builds the patch-merge of an update body over a stored note.
pub fn build_merged_note(stored: &NoteModel, body: &UpdateNoteSchema, now: i64) -> (r: NoteModel)
    ensures
        r@ == spec_merge_note(stored@, *body, now),
{
    NoteModel {
        id: stored.id.clone(),
        title: match &body.title {
            Some(t) => t.clone(),
            None => stored.title.clone(),
        },
        content: match &body.content {
            Some(c) => c.clone(),
            None => stored.content.clone(),
        },
        category: match &body.category {
            Some(c) => c.clone(),
            None => stored.category.clone(),
        },
        published: match &body.published {
            Some(p) => *p,
            None => stored.published,
        },
        created_at: stored.created_at,
        updated_at: now,
    }
}


/// The default page size of the note list.
pub const NOTES_PAGE_SIZE: usize = 10;

/// Lists a window of notes ordered by identifier: up to `limit` rows
/// (ten when unspecified), skipping `page - 1` whole pages.
pub fn note_list_handler(db: &Db, opts: &FilterOptions) -> (r: Vec<NoteModel>)
    requires
        valid_filter(*opts, NOTES_PAGE_SIZE),
    ensures
        view_seq(r@) == window(
            spec_sort_by(db@.notes, note_id_leq()),
            spec_offset(*opts, NOTES_PAGE_SIZE),
            spec_limit(*opts, NOTES_PAGE_SIZE),
        ),
{
    let (limit, offset) = page_window(opts, NOTES_PAGE_SIZE);
    let sorted = sort_notes_by_id(&db.notes);
    window_notes(&sorted, offset, limit)
}

/// Creates a note: refused with a conflict when the title, or the
/// generated identifier, is already present; otherwise the row is
/// appended — unpublished, with the empty string for an absent category
/// and both timestamps set to the creation instant — and returned.
pub fn create_note_handler(db: &mut Db, body: &CreateNoteSchema, new_id: &str, now: i64) -> (r:
    Result<NoteModel, ApiError>)
    requires
        old(db).wf(),
    ensures
        final (db).wf(),
        ({
            let dup = has_note_title(old(db)@.notes, body.title@) || has_note(
                old(db)@.notes,
                new_id@,
            );
            let row = spec_new_note(*body, new_id@, now);
            &&& dup ==> (r matches Err(e) && e matches ApiError::Conflict { message } && message@
                == "Note with that title already exists"@) && final (db)@ == old(db)@
            &&& !dup ==> (r matches Ok(created) && created@ == row && final (db)@ == DbV {
                notes: old(db)@.notes.push(row),
                ..old(db)@
            })
        }),
{
    let title_dup = note_title_taken(&db.notes, body.title.as_str());
    let id_used = match find_note(&db.notes, new_id) {
        Some(i) => {
            proof {
                assert(note_id_key()(db@.notes[i as int]) == new_id@);
            }
            true
        },
        None => false,
    };
    if title_dup || id_used {
        return Err(
            ApiError::Conflict {
                message: String::from_str("Note with that title already exists"),
            },
        );
    }
    let row = build_note(body, new_id, now);
    let created = row.duplicate();
    proof {
        lemma_wf_push_note(db@, row@);
    }
    let ghost db0 = db@;
    let ghost rowv = row@;
    db.notes.push(row);
    proof {
        assert(db@.notes =~= db0.notes.push(rowv));
        assert(db@ == DbV { notes: db0.notes.push(rowv), ..db0 });
    }
    Ok(created)
}

/// Fetches one note by identifier, or not-found when no row carries it
/// (a malformed identifier matches no row).
pub fn read_note_handler(db: &Db, id: &str) -> (r: Result<NoteModel, ApiError>)
    requires
        db.wf(),
    ensures
        match r {
            Ok(note) => has_note(db@.notes, id@) && note@ == note_with_id(db@.notes, id@),
            Err(e) => !has_note(db@.notes, id@) && (e matches ApiError::NotFound { message }
                && message@ == "Note with ID: "@ + id@ + " not found"@),
        },
{
    match find_note(&db.notes, id) {
        Some(i) => {
            proof {
                lemma_note_with_id_is(db@.notes, id@, i as int);
            }
            Ok(db.notes[i].duplicate())
        },
        None => Err(ApiError::NotFound { message: concat3("Note with ID: ", id, " not found") }),
    }
}

/// Patches a note: fetches the stored row (not-found when absent), merges
/// every supplied field over it, stamps the update instant, and writes
/// the whole row back. A merged title that another note already holds
/// surfaces as a store failure, as the underlying unique index raises it.
pub fn edit_note_handler(db: &mut Db, id: &str, body: &UpdateNoteSchema, now: i64) -> (r: Result<
    NoteModel,
    ApiError,
>)
    requires
        old(db).wf(),
    ensures
        final (db).wf(),
        ({
            let found = has_note(old(db)@.notes, id@);
            let merged = spec_merge_note(note_with_id(old(db)@.notes, id@), *body, now);
            let clash = note_conflict_except(old(db)@.notes, merged.title, merged.id);
            &&& !found ==> (r matches Err(e) && e matches ApiError::NotFound { message }
                && message@ == "Note with ID: "@ + id@ + " not found"@) && final (db)@ == old(db)@
            &&& found && clash ==> (r matches Err(e) && e matches ApiError::StoreFailure { .. })
                && final (db)@ == old(db)@
            &&& found && !clash ==> (r matches Ok(updated) && updated@ == merged && exists|i: int|
                #![trigger old(db)@.notes.update(i, merged)]
                {
                    &&& 0 <= i < old(db)@.notes.len()
                    &&& old(db)@.notes[i].id == id@
                    &&& final (db)@ == DbV { notes: old(db)@.notes.update(i, merged), ..old(db)@ }
                })
        }),
{
    let i = match find_note(&db.notes, id) {
        Some(i) => i,
        None => {
            return Err(
                ApiError::NotFound { message: concat3("Note with ID: ", id, " not found") },
            );
        },
    };
    proof {
        lemma_note_with_id_is(db@.notes, id@, i as int);
    }
    let merged = build_merged_note(&db.notes[i], body, now);
    if note_conflicts_except(&db.notes, merged.title.as_str(), merged.id.as_str()) {
        return Err(
            ApiError::StoreFailure {
                message: String::from_str("duplicate key value violated unique constraint"),
            },
        );
    }
    let updated = merged.duplicate();
    proof {
        lemma_wf_update_note(db@, i as int, merged@);
    }
    let ghost db0 = db@;
    let ghost mergedv = merged@;
    db.notes[i] = merged;
    proof {
        assert(db@.notes =~= db0.notes.update(i as int, mergedv));
        assert(db@ == DbV { notes: db0.notes.update(i as int, mergedv), ..db0 });
    }
    Ok(updated)
}

/// Deletes a note by identifier: not-found when no row matches, no
/// content otherwise.
pub fn delete_note_handler(db: &mut Db, id: &str) -> (r: Result<(), ApiError>)
    requires
        old(db).wf(),
    ensures
        final (db).wf(),
        ({
            let found = has_note(old(db)@.notes, id@);
            &&& !found ==> (r matches Err(e) && e matches ApiError::NotFound { message }
                && message@ == "Note with ID: "@ + id@ + " not found"@) && final (db)@ == old(db)@
            &&& found ==> r is Ok && final (db)@ == DbV {
                notes: old(db)@.notes.filter(note_not_id(id@)),
                ..old(db)@
            }
        }),
{
    let ghost notes0 = db@.notes;
    let before = db.notes.len();
    retain_notes_not_id(&mut db.notes, id);
    let after = db.notes.len();
    proof {
        if has_note(notes0, id@) {
            let i = choose|i: int|
                0 <= i < notes0.len() && note_id_key()(#[trigger] notes0[i]) == id@;
            assert(!note_not_id(id@)(notes0[i]));
            lemma_filter_shorter(notes0, note_not_id(id@), i);
        } else {
            assert forall|i: int| 0 <= i < notes0.len() implies note_not_id(id@)(
                #[trigger] notes0[i],
            ) by {
                if notes0[i].id == id@ {
                    assert(note_id_key()(notes0[i]) == id@);
                }
            }
            lemma_filter_all(notes0, note_not_id(id@));
        }
        lemma_wf_delete_note(old(db)@, id@);
        assert(db@ == DbV { notes: old(db)@.notes.filter(note_not_id(id@)), ..old(db)@ });
    }
    if after == before {
        proof {
            assert(db@ == old(db)@);
        }
        return Err(ApiError::NotFound { message: concat3("Note with ID: ", id, " not found") });
    }
    Ok(())
}

} // verus!
