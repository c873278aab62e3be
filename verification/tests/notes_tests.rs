use mynote::notes::{new_note_fields, new_note_row, note_from_row, note_id, note_update, Note, NoteInput, NoteRow};

fn row(pinned: i64, deleted: i64, created_at: &str) -> NoteRow {
    NoteRow {
        id: "note-1".to_string(),
        title: "t".to_string(),
        content: "c".to_string(),
        category_id: Some("diary".to_string()),
        is_pinned: pinned,
        is_deleted: deleted,
        created_at: created_at.to_string(),
        updated_at: "2024-03-08T00:00:00".to_string(),
        last_opened_at: None,
    }
}

fn note() -> Note {
    note_from_row(row(1, 0, "2024-03-07T09:05:00"))
}

#[test]
fn identifiers_carry_the_nanoseconds() {
    assert_eq!(note_id(0), "note-0");
    assert_eq!(note_id(1709800000123456789), "note-1709800000123456789");
    assert_eq!(note_id(u128::MAX), format!("note-{}", u128::MAX));
}

#[test]
fn later_identifiers_read_back_as_larger_numbers() {
    let earlier = note_id(9);
    let later = note_id(10);
    let a: u128 = earlier["note-".len()..].parse().unwrap();
    let b: u128 = later["note-".len()..].parse().unwrap();
    assert_eq!(a, 9);
    assert_eq!(b, 10);
    assert!(a <= b);
    assert_eq!(note_id(10), later);
    assert_ne!(earlier, later);
}

#[test]
fn row_flags_are_set_when_not_zero() {
    let n = note_from_row(row(2, 0, "2024-03-07T09:05:00"));
    assert!(n.is_pinned);
    assert!(!n.is_deleted);
    let m = note_from_row(row(0, 1, "bad"));
    assert!(!m.is_pinned);
    assert!(m.is_deleted);
}

#[test]
fn row_fields_are_kept_and_date_displayed() {
    let n = note();
    assert_eq!(n.id, "note-1");
    assert_eq!(n.category_id.as_deref(), Some("diary"));
    assert_eq!(n.created_at, "2024-03-07T09:05:00");
    assert_eq!(n.updated_at, "2024-03-08T00:00:00");
    assert_eq!(n.last_opened_at, None);
    assert_eq!(n.created_display, "2024/3/7");
}

#[test]
fn empty_edit_keeps_fields() {
    let n = note();
    let u = note_update(&n, NoteInput { title: None, content: None, category_id: None, is_pinned: None });
    assert_eq!(u.title, "t");
    assert_eq!(u.content, "c");
    assert_eq!(u.category_id.as_deref(), Some("diary"));
    assert_eq!(u.is_pinned, 1);
}

#[test]
fn given_fields_replace_stored_ones() {
    let n = note();
    let u = note_update(
        &n,
        NoteInput {
            title: Some("new".to_string()),
            content: Some("hi<script>x()</script>!".to_string()),
            category_id: Some("idea".to_string()),
            is_pinned: Some(false),
        },
    );
    assert_eq!(u.title, "new");
    assert_eq!(u.content, "hi!");
    assert_eq!(u.category_id.as_deref(), Some("idea"));
    assert_eq!(u.is_pinned, 0);
}

#[test]
fn stored_content_is_sanitized_on_edit() {
    let mut n = note();
    n.content = "old<SCRIPT>".to_string();
    let u = note_update(&n, NoteInput { title: None, content: None, category_id: None, is_pinned: None });
    assert_eq!(u.content, "old");
}

#[test]
fn edit_twice_same_as_once() {
    let n = note();
    let input = || NoteInput {
        title: Some("a".to_string()),
        content: Some("<scr<script></script>ipt>b".to_string()),
        category_id: None,
        is_pinned: Some(true),
    };
    let u1 = note_update(&n, input());
    let mut after = n;
    after.title = u1.title.clone();
    after.content = u1.content.clone();
    after.category_id = u1.category_id.clone();
    after.is_pinned = u1.is_pinned != 0;
    let u2 = note_update(&after, input());
    assert_eq!(u1.title, u2.title);
    assert_eq!(u1.content, u2.content);
    assert_eq!(u1.category_id, u2.category_id);
    assert_eq!(u1.is_pinned, u2.is_pinned);
}

#[test]
fn new_note_defaults() {
    assert_eq!(new_note_fields(None, None), ("未命名日记".to_string(), "diary".to_string()));
    assert_eq!(
        new_note_fields(Some("x".to_string()), Some("idea".to_string())),
        ("x".to_string(), "idea".to_string())
    );
}

#[test]
fn new_note_row_is_fresh() {
    let r = new_note_row("note-5".to_string(), "t".to_string(), "diary".to_string(), "2024-01-01T00:00:00".to_string());
    assert_eq!(r.id, "note-5");
    assert_eq!(r.content, "");
    assert_eq!(r.category_id.as_deref(), Some("diary"));
    assert_eq!(r.is_pinned, 0);
    assert_eq!(r.is_deleted, 0);
    assert_eq!(r.created_at, "2024-01-01T00:00:00");
    assert_eq!(r.updated_at, "2024-01-01T00:00:00");
    assert_eq!(r.last_opened_at.as_deref(), Some("2024-01-01T00:00:00"));
}
