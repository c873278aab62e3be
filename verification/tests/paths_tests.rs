use mynote::paths::{restore_source, restore_source_from};
use mynote::paths::{app_home, backup_file_name, join_with, paths, paths_with_separator, sidecar_paths};

#[test]
fn layout_under_home() {
    let sep = std::path::MAIN_SEPARATOR;
    let p = paths("/opt/mynote");
    assert_eq!(p.data_dir, format!("/opt/mynote{sep}data"));
    assert_eq!(p.db_path, format!("/opt/mynote{sep}data{sep}diary.db"));
    assert_eq!(p.backup_dir, format!("/opt/mynote{sep}data{sep}backups"));
    assert_eq!(p.attachments_dir, format!("/opt/mynote{sep}data{sep}attachments"));
}

#[test]
fn layout_matches_pathbuf_join() {
    let home = std::path::PathBuf::from("/srv/notes");
    let data = home.join("data");
    let p = paths("/srv/notes");
    assert_eq!(p.data_dir, data.to_string_lossy());
    assert_eq!(p.db_path, data.join("diary.db").to_string_lossy());
    assert_eq!(p.backup_dir, data.join("backups").to_string_lossy());
    assert_eq!(p.attachments_dir, data.join("attachments").to_string_lossy());
}

#[test]
fn trailing_separator_and_empty_home() {
    let p = paths_with_separator("/opt/mynote/", '/');
    assert_eq!(p.data_dir, "/opt/mynote/data");
    let q = paths_with_separator("", '/');
    assert_eq!(q.data_dir, "data");
    assert_eq!(q.db_path, "data/diary.db");
}

#[test]
fn windows_layout() {
    let p = paths_with_separator("C:\\Mynote", '\\');
    assert_eq!(p.db_path, "C:\\Mynote\\data\\diary.db");
    let d = paths_with_separator("C:", '\\');
    assert_eq!(d.data_dir, "C:data");
    assert_eq!(join_with("C:/app/", "x", '\\'), "C:/app/x");
}

#[test]
fn home_prefers_environment_then_executable_dir() {
    assert_eq!(app_home(Some("/env".to_string()), Some("/exe".to_string())), "/env");
    assert_eq!(app_home(None, Some("/exe".to_string())), "/exe");
    assert_eq!(app_home(None, None), ".");
}

#[test]
fn database_sidecar_files() {
    let (wal, shm) = sidecar_paths("/d/data/diary.db");
    assert_eq!(wal, "/d/data/diary.db-wal");
    assert_eq!(shm, "/d/data/diary.db-shm");
}

#[test]
fn backup_names() {
    assert_eq!(backup_file_name("2024-03-07-101500", "auto"), "diary-2024-03-07-101500-auto.db");
    assert_eq!(backup_file_name("2024-03-07-101500", "manual"), "diary-2024-03-07-101500-manual.db");
}

#[test]
fn windows_verbatim_layout() {
    let d = paths_with_separator("\\\\?\\C:", '\\');
    assert_eq!(d.data_dir, "\\\\?\\C:data");
    let e = paths_with_separator("\\\\?\\C:\\app", '\\');
    assert_eq!(e.data_dir, "\\\\?\\C:\\app\\data");
    assert_eq!(join_with("\\\\?\\C:\\app/", "x", '\\'), "\\\\?\\C:\\app/\\x");
}

#[test]
fn restore_reads_only_from_the_backup_directory() {
    let sep = std::path::MAIN_SEPARATOR;
    assert_eq!(restore_source("/b", "diary-x-auto.db").unwrap(), format!("/b{sep}diary-x-auto.db"));
    assert_eq!(restore_source("/b", "../../etc/passwd").unwrap(), format!("/b{sep}passwd"));
    assert_eq!(restore_source("/b", "..").unwrap_err(), "invalid filename");
    assert_eq!(restore_source("/b", "/").unwrap_err(), "invalid filename");
    assert_eq!(restore_source_from("C:\\b", Some("x.db".to_string()), '\\').unwrap(), "C:\\b\\x.db");
    assert_eq!(restore_source_from("/b", None, '/').unwrap_err(), "invalid filename");
}

#[test]
fn join_follows_pathbuf_replacement_rules() {
    assert_eq!(join_with("/home/u", "/etc", '/'), "/etc");
    assert_eq!(join_with("C:\\app", "D:x", '\\'), "D:x");
    assert_eq!(join_with("C:\\app", "\\x", '\\'), "C:\\x");
    assert_eq!(join_with("C:", "x", '\\'), "C:x");
    assert_eq!(join_with("", "x", '/'), "x");
}

#[test]
fn restore_keeps_a_plain_name() {
    let sep = std::path::MAIN_SEPARATOR;
    assert_eq!(restore_source("/b", "x.db").unwrap(), format!("/b{sep}x.db"));
    assert_eq!(restore_source("/b", "...").unwrap(), format!("/b{sep}..."));
}
