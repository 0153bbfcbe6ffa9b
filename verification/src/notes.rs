//! The notes store beside the queue: what a new note holds, how an update
//! merges with the stored note, how a listing is sorted and paged, and when
//! a write counts as not found. Reading and writing the notes themselves is
//! left to the caller.

use crate::clock::now_millis;
use vstd::prelude::*;

verus! {

/// A note. What is known of its book is carried along as the caller holds
/// it, in a type of the caller's choice.
#[derive(Debug, PartialEq)]
pub struct Note<M> {
    pub id: String,
    pub book_id: Option<String>,
    pub book_meta: Option<M>,
    pub title: Option<String>,
    pub content: Option<String>,
    pub created_at: i64,
    pub updated_at: i64,
}

/// What a caller gives to create a note.
#[derive(Debug)]
pub struct CreateNoteData<M> {
    pub book_id: Option<String>,
    pub book_meta: Option<M>,
    pub title: Option<String>,
    pub content: Option<String>,
}

/// What a caller gives to update a note: for each field nothing, to leave
/// it alone, or an optional new value.
#[derive(Debug)]
pub struct UpdateNoteData<M> {
    pub id: String,
    pub book_id: Option<Option<String>>,
    pub book_meta: Option<Option<M>>,
    pub title: Option<Option<String>>,
    pub content: Option<Option<String>>,
}

/// The number of characters of a note's identity.
pub const NOTE_ID_LEN: usize = 36;

/// The columns that a listing of notes can be sorted by.
#[derive(Debug, Clone, Copy, PartialEq, Eq, Structural)]
pub enum NoteSortField {
    UpdatedAt,
    CreatedAt,
    Title,
}

/// The direction of a sorted listing.
#[derive(Debug, Clone, Copy, PartialEq, Eq, Structural)]
pub enum SortDirection {
    Ascending,
    Descending,
}

/// Why a write to the notes store did not do what was asked.
#[derive(Debug, Clone, Copy, PartialEq, Eq, Structural)]
pub enum NoteError {
    /// No note with the given identity is stored.
    NotFound,
    /// The note was written but could not be read back.
    MissingAfterUpdate,
}

/// What a caller may ask of a listing; every part is optional.
#[derive(Debug)]
pub struct NoteQueryOptions {
    pub book_id: Option<String>,
    pub sort_by: Option<String>,
    pub sort_order: Option<String>,
    pub limit: Option<i64>,
    pub offset: Option<i64>,
}

/// A listing as the store runs it: every part decided.
#[derive(Debug)]
pub struct NoteQuery {
    pub book_id: Option<String>,
    pub sort_field: NoteSortField,
    pub direction: SortDirection,
    pub limit: i64,
    pub offset: i64,
}

/// The number of notes that a listing returns where the caller names none.
pub const DEFAULT_LIMIT: i64 = 50;

/// The sort column for a requested name: the column of that name, and the
/// time of the last update for no name or an unknown one.
pub open spec fn sort_field_of(sort_by: Option<Seq<char>>) -> NoteSortField {
    match sort_by {
        Some(name) => if name == "created_at"@ {
            NoteSortField::CreatedAt
        } else if name == "title"@ {
            NoteSortField::Title
        } else {
            NoteSortField::UpdatedAt
        },
        None => NoteSortField::UpdatedAt,
    }
}

/// The direction for a requested order in lower case: ascending for `asc`,
/// descending for anything else.
pub open spec fn direction_of(lowered: Seq<char>) -> SortDirection {
    if lowered == "asc"@ {
        SortDirection::Ascending
    } else {
        SortDirection::Descending
    }
}

/// The lower-case form of a text as `str::to_lowercase` gives it.
pub uninterp spec fn lowercase_of(text: Seq<char>) -> Seq<char>;

/// The view of an optional text.
pub open spec fn text_view(text: Option<String>) -> Option<Seq<char>> {
    match text {
        Some(t) => Some(t@),
        None => None,
    }
}

/// `str::to_lowercase` of the standard library: the lower-case form of the
/// text as Unicode defines it. The result is named, not spelled out: it
/// depends on the text alone.
#[verifier::external_body]
fn lowercase(text: &String) -> (lowered: String)
    ensures
        lowered@ == lowercase_of(text@),
{
    text.to_lowercase()
}

/// A fresh identity for a note: a random UUID from `uuid::Uuid::new_v4`, as
/// text through its `Display`, which writes the hyphenated form of 36
/// characters. Two calls may give any two such texts. `new_v4` does not
/// return where the system cannot supply random bytes.
#[verifier::external_body]
fn new_note_id() -> (id: String)
    ensures
        id@.len() == NOTE_ID_LEN,
{
    uuid::Uuid::new_v4().to_string()
}

impl NoteSortField {
    /// The name of the column in the notes table.
    pub fn column(&self) -> (name: &'static str)
        ensures
            name@ == match *self {
                NoteSortField::UpdatedAt => "updated_at"@,
                NoteSortField::CreatedAt => "created_at"@,
                NoteSortField::Title => "title"@,
            },
    {
        match self {
            NoteSortField::UpdatedAt => "updated_at",
            NoteSortField::CreatedAt => "created_at",
            NoteSortField::Title => "title",
        }
    }
}

impl SortDirection {
    /// The keyword of the direction in a query.
    pub fn keyword(&self) -> (word: &'static str)
        ensures
            word@ == match *self {
                SortDirection::Ascending => "ASC"@,
                SortDirection::Descending => "DESC"@,
            },
    {
        match self {
            SortDirection::Ascending => "ASC",
            SortDirection::Descending => "DESC",
        }
    }
}

impl NoteError {
    /// The failure as text, for a caller that reports failures as strings.
    pub fn message(&self) -> (text: String)
        ensures
            text@ == match *self {
                NoteError::NotFound => "笔记不存在"@,
                NoteError::MissingAfterUpdate => "更新后获取笔记失败"@,
            },
    {
        match self {
            NoteError::NotFound => "笔记不存在".to_owned(),
            NoteError::MissingAfterUpdate => "更新后获取笔记失败".to_owned(),
        }
    }
}

/// The column that a listing is sorted by.
pub fn sort_field_for(sort_by: &Option<String>) -> (field: NoteSortField)
    ensures
        field == sort_field_of(text_view(*sort_by)),
{
    match sort_by {
        Some(name) => {
            if *name == "created_at".to_owned() {
                NoteSortField::CreatedAt
            } else if *name == "title".to_owned() {
                NoteSortField::Title
            } else {
                NoteSortField::UpdatedAt
            }
        },
        None => NoteSortField::UpdatedAt,
    }
}

/// The direction that a requested order stands for, once it is in lower
/// case.
pub fn direction_of_lowercase(lowered: &String) -> (direction: SortDirection)
    ensures
        direction == direction_of(lowered@),
{
    if *lowered == "asc".to_owned() {
        SortDirection::Ascending
    } else {
        SortDirection::Descending
    }
}

/// The direction of a listing: that of the requested order, whatever its
/// case, and descending where none is requested.
pub fn sort_direction_for(sort_order: &Option<String>) -> (direction: SortDirection)
    ensures
        direction == match *sort_order {
            Some(order) => direction_of(lowercase_of(order@)),
            None => SortDirection::Descending,
        },
{
    match sort_order {
        Some(order) => {
            let lowered = lowercase(order);
            direction_of_lowercase(&lowered)
        },
        None => SortDirection::Descending,
    }
}

/// Decides every part of a listing: the sort column and direction as above,
/// 50 notes where no limit is named, from the first note where no offset is
/// named, and the book filter as given. No options at all give the listing
/// of the 50 notes updated last.
pub fn plan_notes_query(options: Option<NoteQueryOptions>) -> (query: NoteQuery)
    ensures
        match options {
            Some(asked) => {
                &&& query.book_id == asked.book_id
                &&& query.sort_field == sort_field_of(text_view(asked.sort_by))
                &&& query.direction == match asked.sort_order {
                    Some(order) => direction_of(lowercase_of(order@)),
                    None => SortDirection::Descending,
                }
                &&& query.limit == match asked.limit {
                    Some(limit) => limit,
                    None => DEFAULT_LIMIT,
                }
                &&& query.offset == match asked.offset {
                    Some(offset) => offset,
                    None => 0,
                }
            },
            None => {
                &&& query.book_id is None
                &&& query.sort_field == NoteSortField::UpdatedAt
                &&& query.direction == SortDirection::Descending
                &&& query.limit == DEFAULT_LIMIT
                &&& query.offset == 0
            },
        },
{
    match options {
        Some(asked) => {
            let sort_field = sort_field_for(&asked.sort_by);
            let direction = sort_direction_for(&asked.sort_order);
            let limit = match asked.limit {
                Some(limit) => limit,
                None => DEFAULT_LIMIT,
            };
            let offset = match asked.offset {
                Some(offset) => offset,
                None => 0,
            };
            NoteQuery { book_id: asked.book_id, sort_field, direction, limit, offset }
        },
        None => NoteQuery {
            book_id: None,
            sort_field: NoteSortField::UpdatedAt,
            direction: SortDirection::Descending,
            limit: DEFAULT_LIMIT,
            offset: 0,
        },
    }
}

/// The note that creating stores, under the identity and at the time given:
/// the fields as the caller gave them, created and last updated at `now`.
pub fn note_created<M>(data: CreateNoteData<M>, id: String, now: i64) -> (note: Note<M>)
    ensures
        note == (Note {
            id,
            book_id: data.book_id,
            book_meta: data.book_meta,
            title: data.title,
            content: data.content,
            created_at: now,
            updated_at: now,
        }),
{
    Note {
        id,
        book_id: data.book_id,
        book_meta: data.book_meta,
        title: data.title,
        content: data.content,
        created_at: now,
        updated_at: now,
    }
}

/// The note that creating stores: the fields as the caller gave them, under
/// a fresh random identity, created and last updated at the time that the
/// wall clock shows.
pub fn create_note<M>(data: CreateNoteData<M>) -> (note: Note<M>)
    ensures
        note.id@.len() == NOTE_ID_LEN,
        note.book_id == data.book_id,
        note.book_meta == data.book_meta,
        note.title == data.title,
        note.content == data.content,
        note.created_at == note.updated_at,
{
    let id = new_note_id();
    let now = now_millis();
    note_created(data, id, now)
}

/// The note after an update at `now`, or the failure where none is stored.
/// Book identity, title and content take a new value where the update gives
/// one and cannot be cleared; the book information takes what the update
/// gives where it names the field, a value or none. Identity and creation
/// time stay, and the note counts as updated at `now`.
pub fn update_note_at<M>(stored: Option<Note<M>>, data: UpdateNoteData<M>, now: i64) -> (outcome:
    Result<Note<M>, NoteError>)
    ensures
        outcome == match stored {
            Some(note) => Ok::<Note<M>, NoteError>(
                Note {
                    id: note.id,
                    book_id: match data.book_id {
                        Some(Some(value)) => Some(value),
                        _ => note.book_id,
                    },
                    book_meta: match data.book_meta {
                        Some(given) => given,
                        None => note.book_meta,
                    },
                    title: match data.title {
                        Some(Some(value)) => Some(value),
                        _ => note.title,
                    },
                    content: match data.content {
                        Some(Some(value)) => Some(value),
                        _ => note.content,
                    },
                    created_at: note.created_at,
                    updated_at: now,
                },
            ),
            None => Err::<Note<M>, NoteError>(NoteError::NotFound),
        },
{
    match stored {
        Some(note) => Ok(
            Note {
                id: note.id,
                book_id: keep_unless_given(data.book_id, note.book_id),
                book_meta: replace_if_given(data.book_meta, note.book_meta),
                title: keep_unless_given(data.title, note.title),
                content: keep_unless_given(data.content, note.content),
                created_at: note.created_at,
                updated_at: now,
            },
        ),
        None => Err(NoteError::NotFound),
    }
}

/// The note after an update at the time that the wall clock shows, or the
/// failure where none is stored. Whatever the clock showed, the note is the
/// one that an update at some time gives.
pub fn update_note<M>(stored: Option<Note<M>>, data: UpdateNoteData<M>) -> (outcome: Result<
    Note<M>,
    NoteError,
>)
    ensures
        match stored {
            Some(note) => {
                &&& outcome matches Ok(updated)
                &&& updated.id == note.id
                &&& updated.created_at == note.created_at
                &&& updated.book_id == (match data.book_id {
                    Some(Some(value)) => Some(value),
                    _ => note.book_id,
                })
                &&& updated.book_meta == (match data.book_meta {
                    Some(given) => given,
                    None => note.book_meta,
                })
                &&& updated.title == (match data.title {
                    Some(Some(value)) => Some(value),
                    _ => note.title,
                })
                &&& updated.content == (match data.content {
                    Some(Some(value)) => Some(value),
                    _ => note.content,
                })
            },
            None => outcome == Err::<Note<M>, NoteError>(NoteError::NotFound),
        },
{
    let now = now_millis();
    update_note_at(stored, data, now)
}

/// The value of a field after an update that can set it but not clear it:
/// the new value where one is given, else the stored one.
pub fn keep_unless_given<T>(update: Option<Option<T>>, current: Option<T>) -> (merged: Option<T>)
    ensures
        merged == match update {
            Some(Some(value)) => Some(value),
            _ => current,
        },
{
    match update {
        Some(Some(value)) => Some(value),
        _ => current,
    }
}

/// The value of a field after an update that can set it or clear it: what
/// the update gives where it names the field, else the stored value.
pub fn replace_if_given<T>(update: Option<Option<T>>, current: Option<T>) -> (merged: Option<T>)
    ensures
        merged == match update {
            Some(given) => given,
            None => current,
        },
{
    match update {
        Some(given) => given,
        None => current,
    }
}

/// Whether a write by identity found its note: it did unless it changed no
/// row.
pub fn written_or_not_found(rows_affected: u64) -> (outcome: Result<(), NoteError>)
    ensures
        outcome == (if rows_affected == 0 {
            Err::<(), NoteError>(NoteError::NotFound)
        } else {
            Ok::<(), NoteError>(())
        }),
{
    if rows_affected == 0 {
        Err(NoteError::NotFound)
    } else {
        Ok(())
    }
}

/// The note as read back after an update, or the failure where it is gone.
pub fn read_back_or_missing<T>(read_back: Option<T>) -> (outcome: Result<T, NoteError>)
    ensures
        outcome == match read_back {
            Some(note) => Ok::<T, NoteError>(note),
            None => Err::<T, NoteError>(NoteError::MissingAfterUpdate),
        },
{
    match read_back {
        Some(note) => Ok(note),
        None => Err(NoteError::MissingAfterUpdate),
    }
}

} // verus!
