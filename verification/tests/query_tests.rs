use mynote::query::{notes_query, ListInput};

#[test]
fn plain_listing() {
    let q = notes_query(ListInput { deleted: None, search: None, category_id: None });
    assert_eq!(q.sql, "SELECT * FROM notes WHERE is_deleted = ? ORDER BY is_pinned DESC, updated_at DESC");
    assert_eq!(q.values, vec!["0".to_string()]);
}

#[test]
fn deleted_category_and_search() {
    let q = notes_query(ListInput {
        deleted: Some(true),
        search: Some("rain".to_string()),
        category_id: Some("diary".to_string()),
    });
    assert_eq!(
        q.sql,
        "SELECT * FROM notes WHERE is_deleted = ? AND category_id = ? AND (title LIKE ? OR content LIKE ?) ORDER BY is_pinned DESC, updated_at DESC"
    );
    assert_eq!(q.values, vec!["1", "diary", "%rain%", "%rain%"]);
}

#[test]
fn empty_filters_are_ignored() {
    let q = notes_query(ListInput { deleted: Some(false), search: Some(String::new()), category_id: Some(String::new()) });
    assert_eq!(q.sql, "SELECT * FROM notes WHERE is_deleted = ? ORDER BY is_pinned DESC, updated_at DESC");
    assert_eq!(q.values, vec!["0"]);
}

#[test]
fn search_only() {
    let q = notes_query(ListInput { deleted: None, search: Some("雨".to_string()), category_id: None });
    assert_eq!(q.values, vec!["0", "%雨%", "%雨%"]);
}

#[test]
fn one_placeholder_per_value() {
    for deleted in [None, Some(true)] {
        for search in [None, Some("s".to_string())] {
            for category in [None, Some("c".to_string())] {
                let q = notes_query(ListInput { deleted, search: search.clone(), category_id: category.clone() });
                assert_eq!(q.sql.matches('?').count(), q.values.len());
            }
        }
    }
}
