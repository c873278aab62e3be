use mynote::notes::{new_note_row, NoteUpdate};
use mynote::settings::Category;
use mynote::statements::{
    insert_category_statement, insert_note_statement, mark_opened_statement, put_setting_statement,
    set_deleted_statement, update_note_statement, SqlValue,
};

fn text(v: &SqlValue) -> Option<&str> {
    match v {
        SqlValue::Text(t) => Some(t.as_str()),
        _ => None,
    }
}

#[test]
fn edit_statement_binds_fields_time_and_id() {
    let u = NoteUpdate { title: "t".to_string(), content: "c".to_string(), category_id: None, is_pinned: 1 };
    let s = update_note_statement(u, "2024-01-01T00:00:00".to_string(), "note-1".to_string());
    assert_eq!(s.sql, "UPDATE notes SET title = ?, content = ?, category_id = ?, is_pinned = ?, updated_at = ? WHERE id = ?");
    assert_eq!(s.values.len(), 6);
    assert_eq!(text(&s.values[0]), Some("t"));
    assert_eq!(text(&s.values[1]), Some("c"));
    assert!(matches!(s.values[2], SqlValue::Null));
    assert!(matches!(s.values[3], SqlValue::Integer(1)));
    assert_eq!(text(&s.values[4]), Some("2024-01-01T00:00:00"));
    assert_eq!(text(&s.values[5]), Some("note-1"));
    assert_eq!(s.sql.matches('?').count(), s.values.len());
}

#[test]
fn insert_statement_for_a_new_note() {
    let row = new_note_row("note-5".to_string(), "t".to_string(), "diary".to_string(), "ts".to_string());
    let s = insert_note_statement(row);
    assert_eq!(
        s.sql,
        "INSERT INTO notes (id, title, content, category_id, is_pinned, is_deleted, created_at, updated_at, last_opened_at) VALUES (?, ?, '', ?, 0, 0, ?, ?, ?)"
    );
    let texts: Vec<Option<&str>> = s.values.iter().map(text).collect();
    assert_eq!(texts, vec![Some("note-5"), Some("t"), Some("diary"), Some("ts"), Some("ts"), Some("ts")]);
    assert_eq!(s.sql.matches('?').count(), s.values.len());
}

#[test]
fn bin_statements() {
    let d = set_deleted_statement(true, "ts".to_string(), "n".to_string());
    assert_eq!(d.sql, "UPDATE notes SET is_deleted = 1, updated_at = ? WHERE id = ?");
    let r = set_deleted_statement(false, "ts".to_string(), "n".to_string());
    assert_eq!(r.sql, "UPDATE notes SET is_deleted = 0, updated_at = ? WHERE id = ?");
    assert_eq!(r.values.iter().map(text).collect::<Vec<_>>(), vec![Some("ts"), Some("n")]);
}

#[test]
fn other_statements() {
    let m = mark_opened_statement("ts".to_string(), "n".to_string());
    assert_eq!(m.sql, "UPDATE notes SET last_opened_at = ? WHERE id = ?");
    let c = insert_category_statement(Category {
        id: "diary".to_string(),
        name: "日记".to_string(),
        sort_order: 0,
        created_at: "ts".to_string(),
    });
    assert_eq!(c.sql, "INSERT INTO categories (id, name, sort_order, created_at) VALUES (?, ?, ?, ?)");
    assert!(matches!(c.values[2], SqlValue::Integer(0)));
    let p = put_setting_statement("theme".to_string(), "rose".to_string());
    assert!(p.sql.starts_with("INSERT INTO settings (key, value) VALUES (?, ?)"));
    assert!(p.sql.ends_with("ON CONFLICT(key) DO UPDATE SET value = excluded.value"));
    assert_eq!(p.sql.matches('?').count(), 2);
    assert_eq!(p.values.iter().map(text).collect::<Vec<_>>(), vec![Some("theme"), Some("rose")]);
}
