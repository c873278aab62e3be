use mynote::backups::{sort_backups, text_is_before, BackupInfo};

fn b(name: &str, at: &str) -> BackupInfo {
    BackupInfo { filename: name.to_string(), size: 1, modified_at: at.to_string() }
}

#[test]
fn newest_first() {
    let r = sort_backups(vec![
        b("a", "2024-01-01T00:00:00"),
        b("b", "2024-03-01T00:00:00"),
        b("c", "2024-02-01T00:00:00"),
    ]);
    let names: Vec<&str> = r.iter().map(|x| x.filename.as_str()).collect();
    assert_eq!(names, vec!["b", "c", "a"]);
}

#[test]
fn equal_times_keep_their_order() {
    let r = sort_backups(vec![
        b("x", "2024-01-01T00:00:00"),
        b("y", "2024-05-01T00:00:00"),
        b("z", "2024-01-01T00:00:00"),
        b("w", "2024-05-01T00:00:00"),
    ]);
    let names: Vec<&str> = r.iter().map(|x| x.filename.as_str()).collect();
    assert_eq!(names, vec!["y", "w", "x", "z"]);
}

#[test]
fn sort_matches_std_stable_sort() {
    let items = vec![b("1", "b"), b("2", "a"), b("3", "ab"), b("4", ""), b("5", "b"), b("6", "é"), b("7", "z")];
    let mut expected: Vec<(String, String)> =
        items.iter().map(|x| (x.filename.clone(), x.modified_at.clone())).collect();
    expected.sort_by(|p, q| q.1.cmp(&p.1));
    let got: Vec<(String, String)> =
        sort_backups(items).into_iter().map(|x| (x.filename, x.modified_at)).collect();
    assert_eq!(got, expected);
}

#[test]
fn empty_list() {
    assert!(sort_backups(Vec::new()).is_empty());
}

#[test]
fn string_order() {
    assert!(text_is_before("a", "b"));
    assert!(text_is_before("", "a"));
    assert!(text_is_before("ab", "abc"));
    assert!(!text_is_before("abc", "ab"));
    assert!(!text_is_before("x", "x"));
    assert!(text_is_before("z", "é"));
}
