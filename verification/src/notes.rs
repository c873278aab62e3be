//! Notes as the application stores and shows them, and the edits made to them.

use vstd::prelude::*;
use crate::display::created_display;
use crate::display::display_of;
use crate::display::parsed_date_parts;
use crate::display::timestamp_format;
use crate::sanitize::sanitize_content;
use crate::sanitize::sanitized;
use crate::sanitize::matches_at;
use crate::sanitize::open_tag;
use crate::sanitize::law_sanitized_has_no_script_tag;
use crate::sanitize::law_sanitize_idempotent;
use crate::text::copy_opt;
use crate::text::decimal;
use crate::text::decimal_value;
use crate::text::law_decimal_reads_back;
use crate::text::law_decimal_injective;
use crate::text::push_decimal;
use crate::text::push_text;

verus! {

/// A note as the application shows it.
pub struct Note {
    pub id: String,
    pub title: String,
    pub content: String,
    pub category_id: Option<String>,
    pub is_pinned: bool,
    pub is_deleted: bool,
    pub created_at: String,
    pub updated_at: String,
    pub last_opened_at: Option<String>,
    pub created_display: String,
}

/// A note as a row of the `notes` table holds it.
pub struct NoteRow {
    pub id: String,
    pub title: String,
    pub content: String,
    pub category_id: Option<String>,
    pub is_pinned: i64,
    pub is_deleted: i64,
    pub created_at: String,
    pub updated_at: String,
    pub last_opened_at: Option<String>,
}

/// The fields an edit may set; those left `None` keep their stored value.
pub struct NoteInput {
    pub title: Option<String>,
    pub content: Option<String>,
    pub category_id: Option<String>,
    pub is_pinned: Option<bool>,
}

/// The values an edit writes back to the `notes` table.
pub struct NoteUpdate {
    pub title: String,
    pub content: String,
    pub category_id: Option<String>,
    pub is_pinned: i64,
}

/// The identifier of a note made at `nanos` nanoseconds after the Unix epoch:
/// `note-<nanos>`.
pub fn note_id(nanos: u128) -> (id: String)
    ensures
        id@ == seq!['n', 'o', 't', 'e', '-'] + decimal(nanos as nat),
{
    let mut id = String::new();
    push_text(&mut id, "note-");
    push_decimal(&mut id, nanos);
    proof {
        reveal_strlit("note-");
        assert(Seq::<char>::empty() + "note-"@ =~= seq!['n', 'o', 't', 'e', '-']);
    }
    id
}

/// Notes made at different instants get different identifiers.
pub proof fn law_note_ids_differ(a: nat, b: nat)
    requires
        a != b,
    ensures
        seq!['n', 'o', 't', 'e', '-'] + decimal(a) != seq!['n', 'o', 't', 'e', '-'] + decimal(b),
{
    let p = seq!['n', 'o', 't', 'e', '-'];
    if p + decimal(a) == p + decimal(b) {
        assert(decimal(a) =~= (p + decimal(a)).skip(5));
        assert(decimal(b) =~= (p + decimal(b)).skip(5));
        law_decimal_injective(a, b);
    }
}

/// An identifier read back after its `note-` prefix gives the instant it was
/// made at, so notes made later never read back as a smaller number, and two
/// identifiers are equal exactly when their instants are.
pub proof fn law_note_ids_follow_the_clock(a: nat, b: nat)
    requires
        a <= b,
    ensures
        decimal_value((seq!['n', 'o', 't', 'e', '-'] + decimal(a)).skip(5)) == a,
        decimal_value((seq!['n', 'o', 't', 'e', '-'] + decimal(b)).skip(5)) == b,
        decimal_value((seq!['n', 'o', 't', 'e', '-'] + decimal(a)).skip(5)) <= decimal_value(
            (seq!['n', 'o', 't', 'e', '-'] + decimal(b)).skip(5),
        ),
        (seq!['n', 'o', 't', 'e', '-'] + decimal(a) == seq!['n', 'o', 't', 'e', '-'] + decimal(b))
            <==> a == b,
{
    let p = seq!['n', 'o', 't', 'e', '-'];
    assert((p + decimal(a)).skip(5) =~= decimal(a));
    assert((p + decimal(b)).skip(5) =~= decimal(b));
    law_decimal_reads_back(a);
    law_decimal_reads_back(b);
    if a != b {
        law_note_ids_differ(a, b);
    }
}

/// A stored row read as a note: the flags are set when their column is not 0,
/// and the displayed date comes from `created_at`.
pub fn note_from_row(row: NoteRow) -> (n: Note)
    ensures
        n.id == row.id,
        n.title == row.title,
        n.content == row.content,
        n.category_id == row.category_id,
        n.is_pinned == (row.is_pinned != 0),
        n.is_deleted == (row.is_deleted != 0),
        n.created_at == row.created_at,
        n.updated_at == row.updated_at,
        n.last_opened_at == row.last_opened_at,
        n.created_display@ == display_of(
            row.created_at@,
            parsed_date_parts(row.created_at@, timestamp_format()),
        ),
{
    let created_display = created_display(row.created_at.as_str());
    Note {
        id: row.id,
        title: row.title,
        content: row.content,
        category_id: row.category_id,
        is_pinned: row.is_pinned != 0,
        is_deleted: row.is_deleted != 0,
        created_at: row.created_at,
        updated_at: row.updated_at,
        last_opened_at: row.last_opened_at,
        created_display,
    }
}

/// The content an edit stores: the given content or the stored one, sanitized.
pub open spec fn updated_content(existing: Note, data: NoteInput) -> Seq<char> {
    sanitized(
        match data.content {
            Some(c) => c@,
            None => existing.content@,
        },
    )
}

/// The title an edit stores: the given title or the stored one.
pub open spec fn updated_title(existing: Note, data: NoteInput) -> String {
    match data.title {
        Some(t) => t,
        None => existing.title,
    }
}

/// The category an edit stores: the given category or the stored one.
pub open spec fn updated_category(existing: Note, data: NoteInput) -> Option<String> {
    match data.category_id {
        Some(c) => Some(c),
        None => existing.category_id,
    }
}

/// The pinned flag an edit stores, as the column holds it (1 or 0).
pub open spec fn updated_pinned(existing: Note, data: NoteInput) -> i64 {
    if match data.is_pinned {
        Some(p) => p,
        None => existing.is_pinned,
    } {
        1
    } else {
        0
    }
}

/// What an edit writes: each given field replaces the stored one, the others
/// stay; the content, given or kept, is sanitized; the pinned flag is stored as
/// 1 or 0.
pub fn note_update(existing: &Note, data: NoteInput) -> (u: NoteUpdate)
    ensures
        u.title == updated_title(*existing, data),
        u.content@ == updated_content(*existing, data),
        u.category_id == updated_category(*existing, data),
        u.is_pinned == updated_pinned(*existing, data),
{
    let title = match data.title {
        Some(t) => t,
        None => existing.title.clone(),
    };
    let content = match data.content {
        Some(c) => sanitize_content(c.as_str()),
        None => sanitize_content(existing.content.as_str()),
    };
    let category_id = match data.category_id {
        Some(c) => Some(c),
        None => copy_opt(&existing.category_id),
    };
    let pinned = match data.is_pinned {
        Some(p) => p,
        None => existing.is_pinned,
    };
    NoteUpdate { title, content, category_id, is_pinned: if pinned { 1 } else { 0 } }
}

/// No edit stores a `<script` in a note's content.
pub proof fn law_edit_stores_no_script(existing: Note, data: NoteInput)
    ensures
        forall|i: int| !matches_at(updated_content(existing, data), i, open_tag()),
{
    law_sanitized_has_no_script_tag(
        match data.content {
            Some(c) => c@,
            None => existing.content@,
        },
    );
}

/// A field that an edit gives replaces the stored one whatever the stored one
/// was: a given pin flag is stored as 1 or 0 as given (so an unpinned note can
/// be pinned and a pinned one unpinned), a given title and category are stored
/// as given, and given content is stored sanitized; two notes edited with the
/// same given fields get the same values for them.
pub proof fn law_given_fields_replace_stored(existing: Note, other: Note, data: NoteInput)
    ensures
        data.is_pinned matches Some(p) ==> updated_pinned(existing, data) == (if p { 1i64 } else { 0i64 }),
        data.is_pinned is Some ==> updated_pinned(existing, data) == updated_pinned(other, data),
        data.title matches Some(t) ==> updated_title(existing, data) == t,
        data.category_id matches Some(c) ==> updated_category(existing, data) == Some(c),
        data.content matches Some(c) ==> updated_content(existing, data) == sanitized(c@),
        data.content is Some ==> updated_content(existing, data) == updated_content(other, data),
{
}

/// An edit that gives no field keeps the title, category and pinned flag, and
/// only sanitizes the stored content.
pub proof fn law_empty_edit_keeps_note(existing: Note, data: NoteInput)
    requires
        data.title is None,
        data.content is None,
        data.category_id is None,
        data.is_pinned is None,
    ensures
        updated_title(existing, data) == existing.title,
        updated_content(existing, data) == sanitized(existing.content@),
        updated_category(existing, data) == existing.category_id,
        updated_pinned(existing, data) == if existing.is_pinned { 1i64 } else { 0i64 },
{
}

/// Repeating an edit on the note it produced changes nothing more.
pub proof fn law_edit_twice_same_as_once(existing: Note, data: NoteInput, after: Note)
    requires
        after.title == updated_title(existing, data),
        after.content@ == updated_content(existing, data),
        after.category_id == updated_category(existing, data),
        after.is_pinned == (updated_pinned(existing, data) != 0),
    ensures
        updated_title(after, data) == updated_title(existing, data),
        updated_content(after, data) == updated_content(existing, data),
        updated_category(after, data) == updated_category(existing, data),
        updated_pinned(after, data) == updated_pinned(existing, data),
{
    law_sanitize_idempotent(
        match data.content {
            Some(c) => c@,
            None => existing.content@,
        },
    );
}

/// Title given to a note created without one.
pub open spec fn untitled() -> Seq<char> {
    "未命名日记"@
}

/// Category of a note created without one.
pub open spec fn diary_category() -> Seq<char> {
    "diary"@
}

/// Title and category of a new note: the given ones, or an untitled diary entry.
pub fn new_note_fields(title: Option<String>, category_id: Option<String>) -> (r: (String, String))
    ensures
        r.0@ == match title {
            Some(t) => t@,
            None => untitled(),
        },
        r.1@ == match category_id {
            Some(c) => c@,
            None => diary_category(),
        },
{
    let t = match title {
        Some(t) => t,
        None => "未命名日记".to_owned(),
    };
    let c = match category_id {
        Some(c) => c,
        None => "diary".to_owned(),
    };
    (t, c)
}

/// The row inserted for a new note made at `ts`: empty content, neither
/// pinned nor deleted, and created, updated and opened at `ts`.
pub fn new_note_row(id: String, title: String, category_id: String, ts: String) -> (r: NoteRow)
    ensures
        r.id == id,
        r.title == title,
        r.content@ == Seq::<char>::empty(),
        r.category_id == Some(category_id),
        r.is_pinned == 0,
        r.is_deleted == 0,
        r.created_at == ts,
        r.updated_at == ts,
        r.last_opened_at == Some(ts),
{
    NoteRow {
        id,
        title,
        content: String::new(),
        category_id: Some(category_id),
        is_pinned: 0,
        is_deleted: 0,
        created_at: ts.clone(),
        updated_at: ts.clone(),
        last_opened_at: Some(ts),
    }
}

} // verus!
