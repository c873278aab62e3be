use mynote::notes::Note;
use mynote::session::{answers_step, daily_backup_due, open_step, OpenAction, OpenEvent, OpenState};

fn note(id: &str) -> Note {
    Note {
        id: id.to_string(),
        title: "t".to_string(),
        content: String::new(),
        category_id: Some("diary".to_string()),
        is_pinned: false,
        is_deleted: false,
        created_at: "2024-03-07T09:00:00".to_string(),
        updated_at: "2024-03-07T09:00:00".to_string(),
        last_opened_at: None,
        created_display: "2024/3/7".to_string(),
    }
}

fn today() -> String {
    "2024-03-07".to_string()
}

#[test]
fn opens_the_last_opened_note() {
    let (s, a) = open_step(OpenState::Start, OpenEvent::Begin, &today());
    match a {
        OpenAction::ReadSetting { key, default } => {
            assert_eq!(key, "last_opened_note_id");
            assert_eq!(default, "");
        }
        _ => panic!("expected a setting read"),
    }
    let (s, a) = open_step(s, OpenEvent::LastId("note-9".to_string()), &today());
    assert!(matches!(a, OpenAction::FindLiveNote { ref id } if id == "note-9"));
    let (s, a) = open_step(s, OpenEvent::FoundNote(Some(note("note-9"))), &today());
    assert!(matches!(a, OpenAction::MarkOpened { ref id } if id == "note-9"));
    let (s, a) = open_step(s, OpenEvent::Marked, &today());
    assert!(matches!(a, OpenAction::Finish { ref note } if note.id == "note-9"));
    assert!(matches!(s, OpenState::Done));
}

#[test]
fn no_last_note_turns_to_todays_diary() {
    let (s, _) = open_step(OpenState::Start, OpenEvent::Begin, &today());
    let (s, a) = open_step(s, OpenEvent::LastId(String::new()), &today());
    assert!(matches!(a, OpenAction::FindTodayDiary { ref day } if day == "2024-03-07"));
    let (s, a) = open_step(s, OpenEvent::FoundNote(Some(note("note-1"))), &today());
    assert!(matches!(a, OpenAction::MarkOpened { ref id } if id == "note-1"));
    let (_, a) = open_step(s, OpenEvent::Marked, &today());
    assert!(matches!(a, OpenAction::Finish { ref note } if note.id == "note-1"));
}

#[test]
fn deleted_last_note_turns_to_todays_diary_then_creates() {
    let (s, _) = open_step(OpenState::Start, OpenEvent::Begin, &today());
    let (s, _) = open_step(s, OpenEvent::LastId("gone".to_string()), &today());
    let (s, a) = open_step(s, OpenEvent::FoundNote(None), &today());
    assert!(matches!(a, OpenAction::FindTodayDiary { ref day } if day == "2024-03-07"));
    let (s, a) = open_step(s, OpenEvent::FoundNote(None), &today());
    match a {
        OpenAction::CreateNote { title, category_id } => {
            assert_eq!(title, "今天的记录");
            assert_eq!(category_id, "diary");
        }
        _ => panic!("expected a create"),
    }
    let (s, a) = open_step(s, OpenEvent::Created(note("note-new")), &today());
    assert!(matches!(a, OpenAction::Finish { ref note } if note.id == "note-new"));
    assert!(matches!(s, OpenState::Done));
}

#[test]
fn out_of_order_answers_are_detected() {
    assert!(answers_step(&OpenState::Start, &OpenEvent::Begin));
    assert!(!answers_step(&OpenState::Start, &OpenEvent::Marked));
    assert!(!answers_step(&OpenState::AwaitLastId, &OpenEvent::FoundNote(None)));
    assert!(answers_step(&OpenState::AwaitMarked(note("n")), &OpenEvent::Marked));
    assert!(!answers_step(&OpenState::Done, &OpenEvent::Begin));
}

#[test]
fn daily_backup_due_once_per_day() {
    assert!(daily_backup_due("", "2024-03-07"));
    assert!(daily_backup_due("2024-03-06", "2024-03-07"));
    assert!(!daily_backup_due("2024-03-07", "2024-03-07"));
}

#[test]
fn found_note_with_another_id_or_deleted_is_not_opened() {
    let (s, _) = open_step(OpenState::Start, OpenEvent::Begin, &today());
    let (s, _) = open_step(s, OpenEvent::LastId("note-9".to_string()), &today());
    let (_, a) = open_step(s, OpenEvent::FoundNote(Some(note("note-8"))), &today());
    assert!(matches!(a, OpenAction::FindTodayDiary { .. }));

    let (s, _) = open_step(OpenState::Start, OpenEvent::Begin, &today());
    let (s, _) = open_step(s, OpenEvent::LastId("note-9".to_string()), &today());
    let mut gone = note("note-9");
    gone.is_deleted = true;
    let (_, a) = open_step(s, OpenEvent::FoundNote(Some(gone)), &today());
    assert!(matches!(a, OpenAction::FindTodayDiary { .. }));
}

#[test]
fn found_diary_note_of_another_day_or_category_is_not_opened() {
    let mut other_day = note("note-1");
    other_day.created_at = "2024-03-06T23:59:59".to_string();
    let (_, a) = open_step(OpenState::AwaitTodayNote, OpenEvent::FoundNote(Some(other_day)), &today());
    assert!(matches!(a, OpenAction::CreateNote { .. }));
    let mut idea = note("note-2");
    idea.category_id = Some("idea".to_string());
    let (_, a) = open_step(OpenState::AwaitTodayNote, OpenEvent::FoundNote(Some(idea)), &today());
    assert!(matches!(a, OpenAction::CreateNote { .. }));
}

#[test]
fn reopening_returns_the_same_note() {
    let (s, _) = open_step(OpenState::Start, OpenEvent::Begin, &today());
    let (s, _) = open_step(s, OpenEvent::LastId(String::new()), &today());
    let (s, _) = open_step(s, OpenEvent::FoundNote(None), &today());
    let (_, a) = open_step(s, OpenEvent::Created(note("note-77")), &today());
    let first = match a {
        OpenAction::Finish { note } => note,
        _ => panic!("expected finish"),
    };
    let (s, _) = open_step(OpenState::Start, OpenEvent::Begin, &today());
    let (s, a) = open_step(s, OpenEvent::LastId(first.id.clone()), &today());
    assert!(matches!(a, OpenAction::FindLiveNote { ref id } if *id == first.id));
    let (s, _) = open_step(s, OpenEvent::FoundNote(Some(note(&first.id))), &today());
    let (_, a) = open_step(s, OpenEvent::Marked, &today());
    assert!(matches!(a, OpenAction::Finish { ref note } if note.id == "note-77"));
}
