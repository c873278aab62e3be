use mynote::settings::setup_setting_writes;
use mynote::settings::{
    default_categories, default_settings, is_saved_setting, seed_categories, setting_or_default, settings_to_save,
};

#[test]
fn default_categories_in_order() {
    let ts = "2024-01-01T00:00:00".to_string();
    let c = default_categories(&ts);
    let ids: Vec<&str> = c.iter().map(|x| x.id.as_str()).collect();
    let names: Vec<&str> = c.iter().map(|x| x.name.as_str()).collect();
    assert_eq!(ids, vec!["diary", "quote", "idea", "study", "project", "mood"]);
    assert_eq!(names, vec!["日记", "摘抄", "想法", "学习", "项目", "情绪"]);
    for (i, x) in c.iter().enumerate() {
        assert_eq!(x.sort_order, i as i64);
        assert_eq!(x.created_at, ts);
    }
}

#[test]
fn categories_seeded_only_into_an_empty_table() {
    let ts = "t".to_string();
    assert_eq!(seed_categories(0, &ts).len(), 6);
    assert!(seed_categories(6, &ts).is_empty());
    assert!(seed_categories(1, &ts).is_empty());
}

#[test]
fn default_setting_values() {
    let s = default_settings();
    assert_eq!(
        s,
        vec![
            ("font_size".to_string(), "18".to_string()),
            ("theme".to_string(), "rose".to_string()),
            ("sidebar_width".to_string(), "330".to_string()),
        ]
    );
}

#[test]
fn saved_setting_keys() {
    for k in ["font_size", "theme", "sidebar_width", "last_opened_note_id"] {
        assert!(is_saved_setting(k));
    }
    for k in ["last_auto_backup_date", "", "Theme", "font_size "] {
        assert!(!is_saved_setting(k));
    }
}

#[test]
fn settings_change_keeps_only_allowed_keys() {
    let patch = vec![
        ("theme".to_string(), "dark".to_string()),
        ("last_auto_backup_date".to_string(), "2000-01-01".to_string()),
        ("font_size".to_string(), "20".to_string()),
        ("evil".to_string(), "1".to_string()),
    ];
    assert_eq!(
        settings_to_save(patch),
        vec![("theme".to_string(), "dark".to_string()), ("font_size".to_string(), "20".to_string())]
    );
    assert!(settings_to_save(Vec::new()).is_empty());
}

#[test]
fn setting_default_when_unset() {
    assert_eq!(setting_or_default(None, "18"), "18");
    assert_eq!(setting_or_default(Some("22".to_string()), "18"), "22");
}

#[test]
fn seeding_twice_adds_nothing() {
    let ts = "t".to_string();
    let first = seed_categories(0, &ts);
    assert!(seed_categories(first.len() as i64, &ts).is_empty());
}

#[test]
fn setup_writes_back_stored_values_or_defaults() {
    let w = setup_setting_writes(vec![None, Some("dark".to_string()), None]);
    assert_eq!(
        w,
        vec![
            ("font_size".to_string(), "18".to_string()),
            ("theme".to_string(), "dark".to_string()),
            ("sidebar_width".to_string(), "330".to_string()),
        ]
    );
    let again = setup_setting_writes(w.iter().map(|(_, v)| Some(v.clone())).collect());
    assert_eq!(again, w);
}
