//! The statements that change notes, categories and settings, each with the
//! values bound to its `?` placeholders, in order.

use vstd::prelude::*;
use crate::notes::NoteRow;
use crate::notes::NoteUpdate;
use crate::query::placeholders;
use crate::query::placeholders_from;
use crate::settings::Category;
use crate::text::push_text;

verus! {

/// A value bound to a placeholder.
pub enum SqlValue {
    Text(String),
    Integer(i64),
    Null,
}

/// A statement and its bound values.
pub struct Statement {
    pub sql: String,
    pub values: Vec<SqlValue>,
}

/// An optional text, bound as text or as `NULL`.
pub open spec fn text_or_null(t: Option<String>) -> SqlValue {
    match t {
        Some(s) => SqlValue::Text(s),
        None => SqlValue::Null,
    }
}

fn bind_opt(t: Option<String>) -> (v: SqlValue)
    ensures
        v == text_or_null(t),
{
    match t {
        Some(s) => SqlValue::Text(s),
        None => SqlValue::Null,
    }
}

fn statement(sql: &str, values: Vec<SqlValue>) -> (s: Statement)
    ensures
        s.sql@ == sql@,
        s.values == values,
{
    let mut text = String::new();
    push_text(&mut text, sql);
    proof {
        assert(Seq::<char>::empty() + sql@ =~= sql@);
    }
    Statement { sql: text, values }
}

pub open spec fn update_note_sql() -> Seq<char> {
    "UPDATE notes SET title = ?, content = ?, category_id = ?, is_pinned = ?, updated_at = ? WHERE id = ?"@
}

/// The edit of note `id` at `updated_at`: title, content, category and pinned
/// flag from `u`, then the time, then the note.
pub fn update_note_statement(u: NoteUpdate, updated_at: String, id: String) -> (s: Statement)
    ensures
        s.sql@ == update_note_sql(),
        s.values@ == seq![
            SqlValue::Text(u.title),
            SqlValue::Text(u.content),
            text_or_null(u.category_id),
            SqlValue::Integer(u.is_pinned),
            SqlValue::Text(updated_at),
            SqlValue::Text(id),
        ],
{
    let mut v: Vec<SqlValue> = Vec::new();
    v.push(SqlValue::Text(u.title));
    v.push(SqlValue::Text(u.content));
    v.push(bind_opt(u.category_id));
    v.push(SqlValue::Integer(u.is_pinned));
    v.push(SqlValue::Text(updated_at));
    v.push(SqlValue::Text(id));
    let s = statement(
        "UPDATE notes SET title = ?, content = ?, category_id = ?, is_pinned = ?, updated_at = ? WHERE id = ?",
        v,
    );
    assert(s.values@ =~= seq![
        SqlValue::Text(u.title),
        SqlValue::Text(u.content),
        text_or_null(u.category_id),
        SqlValue::Integer(u.is_pinned),
        SqlValue::Text(updated_at),
        SqlValue::Text(id),
    ]);
    s
}

pub open spec fn insert_note_sql() -> Seq<char> {
    "INSERT INTO notes (id, title, content, category_id, is_pinned, is_deleted, created_at, updated_at, last_opened_at) VALUES (?, ?, '', ?, 0, 0, ?, ?, ?)"@
}

/// The insertion of a new note's row: the content is empty and the flags are
/// 0 in the statement itself; identifier, title, category and the three times
/// are bound.
pub fn insert_note_statement(row: NoteRow) -> (s: Statement)
    ensures
        s.sql@ == insert_note_sql(),
        s.values@ == seq![
            SqlValue::Text(row.id),
            SqlValue::Text(row.title),
            text_or_null(row.category_id),
            SqlValue::Text(row.created_at),
            SqlValue::Text(row.updated_at),
            text_or_null(row.last_opened_at),
        ],
{
    let mut v: Vec<SqlValue> = Vec::new();
    v.push(SqlValue::Text(row.id));
    v.push(SqlValue::Text(row.title));
    v.push(bind_opt(row.category_id));
    v.push(SqlValue::Text(row.created_at));
    v.push(SqlValue::Text(row.updated_at));
    v.push(bind_opt(row.last_opened_at));
    let s = statement(
        "INSERT INTO notes (id, title, content, category_id, is_pinned, is_deleted, created_at, updated_at, last_opened_at) VALUES (?, ?, '', ?, 0, 0, ?, ?, ?)",
        v,
    );
    assert(s.values@ =~= seq![
        SqlValue::Text(row.id),
        SqlValue::Text(row.title),
        text_or_null(row.category_id),
        SqlValue::Text(row.created_at),
        SqlValue::Text(row.updated_at),
        text_or_null(row.last_opened_at),
    ]);
    s
}

pub open spec fn delete_note_sql() -> Seq<char> {
    "UPDATE notes SET is_deleted = 1, updated_at = ? WHERE id = ?"@
}

pub open spec fn restore_note_sql() -> Seq<char> {
    "UPDATE notes SET is_deleted = 0, updated_at = ? WHERE id = ?"@
}

/// Moving note `id` to the bin (`deleted`) or back out of it, at `updated_at`.
pub fn set_deleted_statement(deleted: bool, updated_at: String, id: String) -> (s: Statement)
    ensures
        s.sql@ == if deleted { delete_note_sql() } else { restore_note_sql() },
        s.values@ == seq![SqlValue::Text(updated_at), SqlValue::Text(id)],
{
    let mut v: Vec<SqlValue> = Vec::new();
    v.push(SqlValue::Text(updated_at));
    v.push(SqlValue::Text(id));
    let s = if deleted {
        statement("UPDATE notes SET is_deleted = 1, updated_at = ? WHERE id = ?", v)
    } else {
        statement("UPDATE notes SET is_deleted = 0, updated_at = ? WHERE id = ?", v)
    };
    assert(s.values@ =~= seq![SqlValue::Text(updated_at), SqlValue::Text(id)]);
    s
}

pub open spec fn mark_opened_sql() -> Seq<char> {
    "UPDATE notes SET last_opened_at = ? WHERE id = ?"@
}

/// Recording that note `id` was opened at `opened_at`.
pub fn mark_opened_statement(opened_at: String, id: String) -> (s: Statement)
    ensures
        s.sql@ == mark_opened_sql(),
        s.values@ == seq![SqlValue::Text(opened_at), SqlValue::Text(id)],
{
    let mut v: Vec<SqlValue> = Vec::new();
    v.push(SqlValue::Text(opened_at));
    v.push(SqlValue::Text(id));
    let s = statement("UPDATE notes SET last_opened_at = ? WHERE id = ?", v);
    assert(s.values@ =~= seq![SqlValue::Text(opened_at), SqlValue::Text(id)]);
    s
}

pub open spec fn insert_category_sql() -> Seq<char> {
    "INSERT INTO categories (id, name, sort_order, created_at) VALUES (?, ?, ?, ?)"@
}

/// The insertion of a category.
pub fn insert_category_statement(c: Category) -> (s: Statement)
    ensures
        s.sql@ == insert_category_sql(),
        s.values@ == seq![
            SqlValue::Text(c.id),
            SqlValue::Text(c.name),
            SqlValue::Integer(c.sort_order),
            SqlValue::Text(c.created_at),
        ],
{
    let mut v: Vec<SqlValue> = Vec::new();
    v.push(SqlValue::Text(c.id));
    v.push(SqlValue::Text(c.name));
    v.push(SqlValue::Integer(c.sort_order));
    v.push(SqlValue::Text(c.created_at));
    let s = statement("INSERT INTO categories (id, name, sort_order, created_at) VALUES (?, ?, ?, ?)", v);
    assert(s.values@ =~= seq![
        SqlValue::Text(c.id),
        SqlValue::Text(c.name),
        SqlValue::Integer(c.sort_order),
        SqlValue::Text(c.created_at),
    ]);
    s
}

pub open spec fn put_setting_sql() -> Seq<char> {
    "INSERT INTO settings (key, value) VALUES (?, ?)
         ON CONFLICT(key) DO UPDATE SET value = excluded.value"@
}

/// Writing setting `key` with `value`, replacing any value it had.
pub fn put_setting_statement(key: String, value: String) -> (s: Statement)
    ensures
        s.sql@ == put_setting_sql(),
        s.values@ == seq![SqlValue::Text(key), SqlValue::Text(value)],
{
    let mut v: Vec<SqlValue> = Vec::new();
    v.push(SqlValue::Text(key));
    v.push(SqlValue::Text(value));
    let s = statement(
        "INSERT INTO settings (key, value) VALUES (?, ?)
         ON CONFLICT(key) DO UPDATE SET value = excluded.value",
        v,
    );
    assert(s.values@ =~= seq![SqlValue::Text(key), SqlValue::Text(value)]);
    s
}

proof fn lemma_update_placeholders()
    ensures
        placeholders(update_note_sql()) == 6,
{
    reveal_strlit("UPDATE notes SET title = ?, content = ?, category_id = ?, is_pinned = ?, updated_at = ? WHERE id = ?");
    reveal_with_fuel(placeholders_from, 12);
    let s = update_note_sql();
    assert(s.len() == 100);
    assert(placeholders_from(s, 90) == 1);
    assert(placeholders_from(s, 80) == 2);
    assert(placeholders_from(s, 70) == 3);
    assert(placeholders_from(s, 60) == 3);
    assert(placeholders_from(s, 50) == 4);
    assert(placeholders_from(s, 40) == 4);
    assert(placeholders_from(s, 30) == 5);
    assert(placeholders_from(s, 20) == 6);
    assert(placeholders_from(s, 10) == 6);
    assert(placeholders_from(s, 0) == 6);
}

proof fn lemma_insert_note_placeholders()
    ensures
        placeholders(insert_note_sql()) == 6,
{
    reveal_strlit("INSERT INTO notes (id, title, content, category_id, is_pinned, is_deleted, created_at, updated_at, last_opened_at) VALUES (?, ?, '', ?, 0, 0, ?, ?, ?)");
    reveal_with_fuel(placeholders_from, 12);
    let s = insert_note_sql();
    assert(s.len() == 150);
    assert(placeholders_from(s, 140) == 3);
    assert(placeholders_from(s, 130) == 4);
    assert(placeholders_from(s, 120) == 6);
    assert(placeholders_from(s, 110) == 6);
    assert(placeholders_from(s, 100) == 6);
    assert(placeholders_from(s, 90) == 6);
    assert(placeholders_from(s, 80) == 6);
    assert(placeholders_from(s, 70) == 6);
    assert(placeholders_from(s, 60) == 6);
    assert(placeholders_from(s, 50) == 6);
    assert(placeholders_from(s, 40) == 6);
    assert(placeholders_from(s, 30) == 6);
    assert(placeholders_from(s, 20) == 6);
    assert(placeholders_from(s, 10) == 6);
    assert(placeholders_from(s, 0) == 6);
}

proof fn lemma_delete_note_sql_placeholders()
    ensures
        placeholders(delete_note_sql()) == 2,
{
    reveal_strlit("UPDATE notes SET is_deleted = 1, updated_at = ? WHERE id = ?");
    reveal_with_fuel(placeholders_from, 12);
    let s = delete_note_sql();
    assert(s.len() == 60);
    assert(placeholders_from(s, 50) == 1);
    assert(placeholders_from(s, 40) == 2);
    assert(placeholders_from(s, 30) == 2);
    assert(placeholders_from(s, 20) == 2);
    assert(placeholders_from(s, 10) == 2);
    assert(placeholders_from(s, 0) == 2);
}

proof fn lemma_restore_note_sql_placeholders()
    ensures
        placeholders(restore_note_sql()) == 2,
{
    reveal_strlit("UPDATE notes SET is_deleted = 0, updated_at = ? WHERE id = ?");
    reveal_with_fuel(placeholders_from, 12);
    let s = restore_note_sql();
    assert(s.len() == 60);
    assert(placeholders_from(s, 50) == 1);
    assert(placeholders_from(s, 40) == 2);
    assert(placeholders_from(s, 30) == 2);
    assert(placeholders_from(s, 20) == 2);
    assert(placeholders_from(s, 10) == 2);
    assert(placeholders_from(s, 0) == 2);
}

proof fn lemma_mark_opened_sql_placeholders()
    ensures
        placeholders(mark_opened_sql()) == 2,
{
    reveal_strlit("UPDATE notes SET last_opened_at = ? WHERE id = ?");
    reveal_with_fuel(placeholders_from, 12);
    let s = mark_opened_sql();
    assert(s.len() == 48);
    assert(placeholders_from(s, 40) == 1);
    assert(placeholders_from(s, 30) == 2);
    assert(placeholders_from(s, 20) == 2);
    assert(placeholders_from(s, 10) == 2);
    assert(placeholders_from(s, 0) == 2);
}

proof fn lemma_insert_category_sql_placeholders()
    ensures
        placeholders(insert_category_sql()) == 4,
{
    reveal_strlit("INSERT INTO categories (id, name, sort_order, created_at) VALUES (?, ?, ?, ?)");
    reveal_with_fuel(placeholders_from, 12);
    let s = insert_category_sql();
    assert(s.len() == 77);
    assert(placeholders_from(s, 70) == 2);
    assert(placeholders_from(s, 60) == 4);
    assert(placeholders_from(s, 50) == 4);
    assert(placeholders_from(s, 40) == 4);
    assert(placeholders_from(s, 30) == 4);
    assert(placeholders_from(s, 20) == 4);
    assert(placeholders_from(s, 10) == 4);
    assert(placeholders_from(s, 0) == 4);
}

proof fn lemma_put_setting_sql_placeholders()
    ensures
        placeholders(put_setting_sql()) == 2,
{
    reveal_strlit("INSERT INTO settings (key, value) VALUES (?, ?)
         ON CONFLICT(key) DO UPDATE SET value = excluded.value");
    reveal_with_fuel(placeholders_from, 12);
    let s = put_setting_sql();
    assert(s.len() == 110);
    assert(placeholders_from(s, 100) == 0);
    assert(placeholders_from(s, 90) == 0);
    assert(placeholders_from(s, 80) == 0);
    assert(placeholders_from(s, 70) == 0);
    assert(placeholders_from(s, 60) == 0);
    assert(placeholders_from(s, 50) == 0);
    assert(placeholders_from(s, 40) == 2);
    assert(placeholders_from(s, 30) == 2);
    assert(placeholders_from(s, 20) == 2);
    assert(placeholders_from(s, 10) == 2);
    assert(placeholders_from(s, 0) == 2);
}

/// Each of these statements has one `?` placeholder per value it binds.
pub proof fn law_statement_placeholders()
    ensures
        placeholders(update_note_sql()) == 6,
        placeholders(insert_note_sql()) == 6,
        placeholders(delete_note_sql()) == 2,
        placeholders(restore_note_sql()) == 2,
        placeholders(mark_opened_sql()) == 2,
        placeholders(insert_category_sql()) == 4,
        placeholders(put_setting_sql()) == 2,
{
    lemma_update_placeholders();
    lemma_insert_note_placeholders();
    lemma_delete_note_sql_placeholders();
    lemma_restore_note_sql_placeholders();
    lemma_mark_opened_sql_placeholders();
    lemma_insert_category_sql_placeholders();
    lemma_put_setting_sql_placeholders();
}

} // verus!
