//! The decisions taken when the application starts: which note to open, and
//! whether today's automatic backup is still due.
//!
//! Opening works as a machine driven by its caller: `open_step` takes the
//! current state and the answer to the last action, and returns the next state
//! and the next action (read a setting, look up a note, mark a note opened,
//! create a note, or finish with a note).  A note that a lookup returns is
//! taken only when it is what was asked for; otherwise the lookup counts as
//! having found nothing.

use vstd::prelude::*;
use crate::notes::Note;
use crate::text::chars_of;
use crate::text::text_eq;
use crate::backups::text_before;
use crate::display::display_of;
use crate::display::parsed_date_parts;
use crate::display::timestamp_format;

verus! {

/// Where opening stands.
pub enum OpenState {
    Start,
    AwaitLastId,
    /// Waiting for the lookup of the note with this identifier.
    AwaitLastNote(String),
    AwaitTodayNote,
    AwaitMarked(Note),
    AwaitCreated,
    Done,
}

/// The answer to the last action.
pub enum OpenEvent {
    /// Opening begins.
    Begin,
    /// The value of the last-opened setting (empty when unset).
    LastId(String),
    /// The note a lookup found, if any.
    FoundNote(Option<Note>),
    /// The note was marked opened.
    Marked,
    /// The note that was created.
    Created(Note),
}

/// What the caller does next.
pub enum OpenAction {
    /// Read the setting `key`, with `default` when it is unset.
    ReadSetting { key: String, default: String },
    /// Look up the note `id` among the notes that are not deleted.
    FindLiveNote { id: String },
    /// Look up the earliest diary note, not deleted, created on `day`.
    FindTodayDiary { day: String },
    /// Record that the note `id` was opened now.
    MarkOpened { id: String },
    /// Create a note with this title in this category.
    CreateNote { title: String, category_id: String },
    /// Opening is over; this is the note to show.
    Finish { note: Note },
}

/// The setting that remembers the last opened note.
pub open spec fn last_opened_key() -> Seq<char> {
    "last_opened_note_id"@
}

/// The title of the diary note created for a day that has none.
pub open spec fn today_title() -> Seq<char> {
    "今天的记录"@
}

/// The category of diary notes.
pub open spec fn diary() -> Seq<char> {
    "diary"@
}

/// `n` is the note `id`, and it is not deleted.
pub open spec fn is_live_note(n: Note, id: Seq<char>) -> bool {
    n.id@ == id && !n.is_deleted
}

/// The first ten characters of a timestamp (all of it when shorter): its day.
pub open spec fn day_of(s: Seq<char>) -> Seq<char> {
    if s.len() <= 10 { s } else { s.take(10) }
}

/// `n` is a diary note, not deleted, created on `day`.
pub open spec fn is_day_diary(n: Note, day: Seq<char>) -> bool {
    &&& !n.is_deleted
    &&& n.category_id matches Some(c) && c@ == diary()
    &&& day_of(n.created_at@) == day
}

/// `event` answers the action that led to `state`.
pub open spec fn answers(state: OpenState, event: OpenEvent) -> bool {
    match state {
        OpenState::Start => event is Begin,
        OpenState::AwaitLastId => event is LastId,
        OpenState::AwaitLastNote(_) => event is FoundNote,
        OpenState::AwaitTodayNote => event is FoundNote,
        OpenState::AwaitMarked(_) => event is Marked,
        OpenState::AwaitCreated => event is Created,
        OpenState::Done => false,
    }
}

/// The state after `event` in `state`, on `today`.
pub open spec fn open_next(state: OpenState, event: OpenEvent, today: Seq<char>) -> OpenState {
    match (state, event) {
        (OpenState::Start, _) => OpenState::AwaitLastId,
        (OpenState::AwaitLastId, OpenEvent::LastId(id)) => if id@.len() > 0 {
            OpenState::AwaitLastNote(id)
        } else {
            OpenState::AwaitTodayNote
        },
        (OpenState::AwaitLastNote(id), OpenEvent::FoundNote(Some(n))) => if is_live_note(n, id@) {
            OpenState::AwaitMarked(n)
        } else {
            OpenState::AwaitTodayNote
        },
        (OpenState::AwaitLastNote(_), _) => OpenState::AwaitTodayNote,
        (OpenState::AwaitTodayNote, OpenEvent::FoundNote(Some(n))) => if is_day_diary(n, today) {
            OpenState::AwaitMarked(n)
        } else {
            OpenState::AwaitCreated
        },
        (OpenState::AwaitTodayNote, _) => OpenState::AwaitCreated,
        _ => OpenState::Done,
    }
}

/// `a` is the action taken after `event` in `state` on `today`: read the
/// last-opened setting first; look that note up when it is set; else, or when
/// it is gone or deleted, look up today's first diary note; mark the note found
/// opened and finish with it; when none is found, create today's diary note and
/// finish with it.
pub open spec fn open_action_is(state: OpenState, event: OpenEvent, today: Seq<char>, a: OpenAction) -> bool {
    match open_next(state, event, today) {
        OpenState::AwaitLastId => a matches OpenAction::ReadSetting { key, default } && key@
            == last_opened_key() && default@.len() == 0,
        OpenState::AwaitLastNote(id) => a == OpenAction::FindLiveNote { id },
        OpenState::AwaitTodayNote => a matches OpenAction::FindTodayDiary { day } && day@ == today,
        OpenState::AwaitMarked(n) => a matches OpenAction::MarkOpened { id } && id == n.id,
        OpenState::AwaitCreated => a matches OpenAction::CreateNote { title, category_id }
            && title@ == today_title() && category_id@ == diary(),
        OpenState::Done => match state {
            OpenState::AwaitMarked(n) => a == OpenAction::Finish { note: n },
            OpenState::AwaitCreated => event matches OpenEvent::Created(n) && a
                == OpenAction::Finish { note: n },
            _ => false,
        },
        OpenState::Start => false,
    }
}

/// Whether `event` answers the action that led to `state`.
pub fn answers_step(state: &OpenState, event: &OpenEvent) -> (b: bool)
    ensures
        b == answers(*state, *event),
{
    match state {
        OpenState::Start => matches!(event, OpenEvent::Begin),
        OpenState::AwaitLastId => matches!(event, OpenEvent::LastId(_)),
        OpenState::AwaitLastNote(_) => matches!(event, OpenEvent::FoundNote(_)),
        OpenState::AwaitTodayNote => matches!(event, OpenEvent::FoundNote(_)),
        OpenState::AwaitMarked(_) => matches!(event, OpenEvent::Marked),
        OpenState::AwaitCreated => matches!(event, OpenEvent::Created(_)),
        OpenState::Done => false,
    }
}

fn live_note(n: &Note, id: &String) -> (b: bool)
    ensures
        b == is_live_note(*n, id@),
{
    text_eq(n.id.as_str(), id.as_str()) && !n.is_deleted
}

fn day_matches(created_at: &String, day: &String) -> (b: bool)
    ensures
        b == (day_of(created_at@) == day@),
{
    let c = chars_of(created_at.as_str());
    let d = chars_of(day.as_str());
    let n: usize = if c.len() <= 10 { c.len() } else { 10 };
    if d.len() != n {
        proof {
            assert(day_of(created_at@).len() == n);
        }
        return false;
    }
    let mut i: usize = 0;
    while i < n
        invariant
            c@ == created_at@,
            d@ == day@,
            n == if c.len() <= 10 { c.len() } else { 10 },
            n <= c.len(),
            d.len() == n,
            i <= n,
            forall|k: int| 0 <= k < i ==> c@[k] == d@[k],
        decreases n - i,
    {
        if c[i] != d[i] {
            proof {
                assert(day_of(created_at@)[i as int] == c@[i as int]);
            }
            return false;
        }
        i += 1;
    }
    proof {
        assert(day_of(created_at@) =~= d@);
    }
    true
}

fn day_diary(n: &Note, today: &String) -> (b: bool)
    ensures
        b == is_day_diary(*n, today@),
{
    if n.is_deleted {
        return false;
    }
    let is_diary = match &n.category_id {
        Some(c) => text_eq(c.as_str(), "diary"),
        None => false,
    };
    is_diary && day_matches(&n.created_at, today)
}

/// One step of opening: the next state and action, as `open_next` and
/// `open_action_is` state.
pub fn open_step(state: OpenState, event: OpenEvent, today: &String) -> (r: (OpenState, OpenAction))
    requires
        answers(state, event),
    ensures
        r.0 == open_next(state, event, today@),
        open_action_is(state, event, today@, r.1),
{
    match state {
        OpenState::Start => (
            OpenState::AwaitLastId,
            OpenAction::ReadSetting { key: "last_opened_note_id".to_owned(), default: String::new() },
        ),
        OpenState::AwaitLastId => match event {
            OpenEvent::LastId(id) => {
                if !id.as_str().is_empty() {
                    let wanted = id.clone();
                    (OpenState::AwaitLastNote(wanted), OpenAction::FindLiveNote { id })
                } else {
                    (OpenState::AwaitTodayNote, OpenAction::FindTodayDiary { day: today.clone() })
                }
            },
            _ => (OpenState::Done, OpenAction::FindTodayDiary { day: today.clone() }),
        },
        OpenState::AwaitLastNote(wanted) => match event {
            OpenEvent::FoundNote(Some(n)) => {
                if live_note(&n, &wanted) {
                    let id = n.id.clone();
                    (OpenState::AwaitMarked(n), OpenAction::MarkOpened { id })
                } else {
                    (OpenState::AwaitTodayNote, OpenAction::FindTodayDiary { day: today.clone() })
                }
            },
            _ => (OpenState::AwaitTodayNote, OpenAction::FindTodayDiary { day: today.clone() }),
        },
        OpenState::AwaitTodayNote => {
            let create = OpenAction::CreateNote {
                title: "今天的记录".to_owned(),
                category_id: "diary".to_owned(),
            };
            match event {
                OpenEvent::FoundNote(Some(n)) => {
                    if day_diary(&n, today) {
                        let id = n.id.clone();
                        (OpenState::AwaitMarked(n), OpenAction::MarkOpened { id })
                    } else {
                        (OpenState::AwaitCreated, create)
                    }
                },
                _ => (OpenState::AwaitCreated, create),
            }
        },
        OpenState::AwaitMarked(n) => (OpenState::Done, OpenAction::Finish { note: n }),
        OpenState::AwaitCreated => match event {
            OpenEvent::Created(n) => (OpenState::Done, OpenAction::Finish { note: n }),
            _ => (OpenState::Done, OpenAction::FindTodayDiary { day: today.clone() }),
        },
        OpenState::Done => (OpenState::Done, OpenAction::FindTodayDiary { day: today.clone() }),
    }
}


/// Steps left before opening is over, at most.
pub open spec fn steps_left(state: OpenState) -> nat {
    match state {
        OpenState::Start => 5,
        OpenState::AwaitLastId => 4,
        OpenState::AwaitLastNote(_) => 3,
        OpenState::AwaitTodayNote => 2,
        OpenState::AwaitMarked(_) => 1,
        OpenState::AwaitCreated => 1,
        OpenState::Done => 0,
    }
}

/// Opening always ends: each answered step brings it closer to the end, and it
/// ends exactly when the action is to finish with a note.
pub proof fn law_opening_ends(state: OpenState, event: OpenEvent, today: Seq<char>, a: OpenAction)
    requires
        answers(state, event),
        open_action_is(state, event, today, a),
    ensures
        steps_left(open_next(state, event, today)) < steps_left(state),
        (open_next(state, event, today) == OpenState::Done) == (a is Finish),
{
}

/// Today's diary note is opened whatever else it holds: a found note that is
/// not deleted, is in the `diary` category and was created on `today` (by the
/// first ten characters of its creation time) is marked opened, and no note is
/// created, whatever its title, content, pin flag or other times; a found note
/// failing any of these leads to creating today's note.
pub proof fn law_todays_diary_is_opened(n: Note, today: Seq<char>, a: OpenAction)
    requires
        open_action_is(OpenState::AwaitTodayNote, OpenEvent::FoundNote(Some(n)), today, a),
    ensures
        (!n.is_deleted && (n.category_id matches Some(c) && c@ == "diary"@) && (if n.created_at@.len() <= 10 {
            n.created_at@
        } else {
            n.created_at@.take(10)
        }) == today) ==> (open_next(OpenState::AwaitTodayNote, OpenEvent::FoundNote(Some(n)), today)
            == OpenState::AwaitMarked(n) && (a matches OpenAction::MarkOpened { id } && id == n.id)),
        !(!n.is_deleted && (n.category_id matches Some(c) && c@ == "diary"@) && (if n.created_at@.len() <= 10 {
            n.created_at@
        } else {
            n.created_at@.take(10)
        }) == today) ==> (open_next(OpenState::AwaitTodayNote, OpenEvent::FoundNote(Some(n)), today)
            == OpenState::AwaitCreated && a is CreateNote),
{
    reveal_strlit("diary");
}

/// A note is marked opened only when it is live and is either the note that
/// was asked for or a diary note of today; a deleted note is never opened.
pub proof fn law_only_live_notes_are_opened(state: OpenState, event: OpenEvent, today: Seq<char>, n: Note)
    requires
        answers(state, event),
        open_next(state, event, today) == OpenState::AwaitMarked(n),
    ensures
        !n.is_deleted,
        event == OpenEvent::FoundNote(Some(n)),
        (state matches OpenState::AwaitLastNote(id) && n.id@ == id@) || (state == OpenState::AwaitTodayNote
            && is_day_diary(n, today)),
{
}

/// A new diary note is created only when the lookup of today's diary note
/// found no diary note of today.
pub proof fn law_create_only_when_nothing_found(
    state: OpenState,
    event: OpenEvent,
    today: Seq<char>,
    a: OpenAction,
)
    requires
        answers(state, event),
        open_action_is(state, event, today, a),
        a is CreateNote,
    ensures
        state == OpenState::AwaitTodayNote,
        event == OpenEvent::FoundNote(None) || (event matches OpenEvent::FoundNote(Some(n)) && !is_day_diary(n, today)),
{
}

/// The notes of a store are kept under their own, non-empty, identifiers.
pub open spec fn store_ok(notes: Map<Seq<char>, Note>) -> bool {
    forall|k: Seq<char>| #[trigger] notes.dom().contains(k) ==> notes[k].id@ == k && k.len() > 0
}

/// `m` is `n` with only the time it was last opened changed.
pub open spec fn opened_copy(n: Note, m: Note) -> bool {
    m == Note { last_opened_at: m.last_opened_at, ..n }
}

/// The value of setting `key`, or `default` when it is unset.
pub open spec fn setting_value(
    settings: Map<Seq<char>, Seq<char>>,
    key: Seq<char>,
    default: Seq<char>,
) -> Seq<char> {
    if settings.dom().contains(key) {
        settings[key]
    } else {
        default
    }
}

/// `n` is stored, is a live diary note of `day`, and no such note was created
/// earlier.
pub open spec fn earliest_day_diary(notes: Map<Seq<char>, Note>, n: Note, day: Seq<char>) -> bool {
    &&& notes.dom().contains(n.id@)
    &&& notes[n.id@] == n
    &&& is_day_diary(n, day)
    &&& forall|k: Seq<char>|
        #[trigger] notes.dom().contains(k) && is_day_diary(notes[k], day) ==> !text_before(
            notes[k].created_at@,
            n.created_at@,
        )
}

/// A note as creation stores it and reads it back: empty content, not pinned,
/// updated and last opened when it was created, with its date shown from its
/// creation time.
pub open spec fn created_fresh(n: Note) -> bool {
    &&& n.content@.len() == 0
    &&& !n.is_pinned
    &&& n.updated_at@ == n.created_at@
    &&& (n.last_opened_at matches Some(t) && t@ == n.created_at@)
    &&& n.created_display@ == display_of(n.created_at@, parsed_date_parts(n.created_at@, timestamp_format()))
}

/// A store holding `notes` and `settings` answers the action `a` with `e` and
/// then holds `notes2` and `settings2`: settings read with their default,
/// lookups find the live note asked for or the earliest live diary note of the
/// day, marking records the note as the last opened one and sets its opening
/// time (to the clock's reading, which is left open here) changing nothing
/// else of it, and creating adds a fresh live note under a new identifier and
/// records it as the last opened one.
pub open spec fn responds(
    notes: Map<Seq<char>, Note>,
    settings: Map<Seq<char>, Seq<char>>,
    a: OpenAction,
    e: OpenEvent,
    notes2: Map<Seq<char>, Note>,
    settings2: Map<Seq<char>, Seq<char>>,
) -> bool {
    match a {
        OpenAction::ReadSetting { key, default } => notes2 == notes && settings2 == settings && (e matches OpenEvent::LastId(v) && v@ == setting_value(settings, key@, default@)),
        OpenAction::FindLiveNote { id } => notes2 == notes && settings2 == settings && (e matches OpenEvent::FoundNote(o) && o == if notes.dom().contains(id@) && !notes[id@].is_deleted {
            Some(notes[id@])
        } else {
            None::<Note>
        }),
        OpenAction::FindTodayDiary { day } => notes2 == notes && settings2 == settings && (e matches OpenEvent::FoundNote(o) && match o {
            Some(n) => earliest_day_diary(notes, n, day@),
            None => forall|k: Seq<char>| #[trigger] notes.dom().contains(k) ==> !is_day_diary(notes[k], day@),
        }),
        OpenAction::MarkOpened { id } => (e is Marked) && settings2 == settings.insert(last_opened_key(), id@)
            && notes2.dom() == notes.dom() && forall|k: Seq<char>| #[trigger] notes.dom().contains(k) ==> if k == id@ {
            opened_copy(notes[k], notes2[k]) && notes2[k].last_opened_at is Some
        } else {
            notes2[k] == notes[k]
        },
        OpenAction::CreateNote { title, category_id } => e matches OpenEvent::Created(n) && !notes.dom().contains(n.id@)
            && n.id@.len() > 0 && !n.is_deleted && n.title@ == title@ && (n.category_id matches Some(c) && c@ == category_id@)
            && created_fresh(n)
            && notes2 == notes.insert(n.id@, n) && settings2 == settings.insert(last_opened_key(), n.id@),
        OpenAction::Finish { .. } => false,
    }
}

/// A whole opening against a store: the states, answers and actions of each
/// step, and the store before each step; the store answers every action but the
/// last, which finishes with a note.
pub open spec fn is_open_run(
    today: Seq<char>,
    st: Seq<OpenState>,
    ev: Seq<OpenEvent>,
    act: Seq<OpenAction>,
    ns: Seq<Map<Seq<char>, Note>>,
    ss: Seq<Map<Seq<char>, Seq<char>>>,
) -> bool {
    &&& act.len() >= 1
    &&& st.len() == act.len()
    &&& ev.len() == act.len()
    &&& ns.len() == act.len()
    &&& ss.len() == act.len()
    &&& st[0] == OpenState::Start
    &&& ev[0] == OpenEvent::Begin
    &&& forall|i: int|
        0 <= i < act.len() ==> answers(st[i], ev[i]) && open_action_is(st[i], ev[i], today, #[trigger] act[i])
    &&& forall|i: int|
        0 <= i < act.len() - 1 ==> st[i + 1] == open_next(st[i], ev[i], today) && responds(
            ns[i],
            ss[i],
            #[trigger] act[i],
            ev[i + 1],
            ns[i + 1],
            ss[i + 1],
        )
    &&& act.last() is Finish
}

/// The note an action finishes with.
pub open spec fn finished_note(a: OpenAction) -> Note {
    match a {
        OpenAction::Finish { note } => note,
        _ => arbitrary(),
    }
}

proof fn lemma_store_ok_along(
    today: Seq<char>,
    st: Seq<OpenState>,
    ev: Seq<OpenEvent>,
    act: Seq<OpenAction>,
    ns: Seq<Map<Seq<char>, Note>>,
    ss: Seq<Map<Seq<char>, Seq<char>>>,
    i: int,
)
    requires
        is_open_run(today, st, ev, act, ns, ss),
        store_ok(ns[0]),
        0 <= i < act.len(),
    ensures
        store_ok(ns[i]),
    decreases i,
{
    if i > 0 {
        lemma_store_ok_along(today, st, ev, act, ns, ss, i - 1);
        let j = i - 1;
        assert(responds(ns[j], ss[j], act[j], ev[i], ns[i], ss[i]));
        match act[j] {
            OpenAction::MarkOpened { id } => {
                assert forall|k: Seq<char>| #[trigger] ns[i].dom().contains(k) implies ns[i][k].id@ == k && k.len() > 0 by {
                    assert(ns[j].dom().contains(k));
                    if k == id@ {
                        assert(opened_copy(ns[j][k], ns[i][k]));
                    }
                }
            },
            OpenAction::CreateNote { .. } => {
                if let OpenEvent::Created(n) = ev[i] {
                    assert forall|k: Seq<char>| #[trigger] ns[i].dom().contains(k) implies ns[i][k].id@ == k && k.len() > 0 by {
                        if k != n.id@ {
                            assert(ns[j].dom().contains(k));
                        }
                    }
                }
            },
            _ => {},
        }
    }
}

/// An opening ends with its note stored, live, and recorded as the last
/// opened one.
pub proof fn law_opening_records_its_note(
    today: Seq<char>,
    st: Seq<OpenState>,
    ev: Seq<OpenEvent>,
    act: Seq<OpenAction>,
    ns: Seq<Map<Seq<char>, Note>>,
    ss: Seq<Map<Seq<char>, Seq<char>>>,
)
    requires
        is_open_run(today, st, ev, act, ns, ss),
        store_ok(ns[0]),
    ensures
        store_ok(ns.last()),
        ns.last().dom().contains(finished_note(act.last()).id@),
        !ns.last()[finished_note(act.last()).id@].is_deleted,
        ss.last().dom().contains(last_opened_key()),
        ss.last()[last_opened_key()] == finished_note(act.last()).id@,
{
    let k = act.len() - 1;
    lemma_store_ok_along(today, st, ev, act, ns, ss, k);
    assert(open_action_is(st[0], ev[0], today, act[0]));
    assert(k >= 1);
    let f = finished_note(act[k]);
    assert(open_action_is(st[k], ev[k], today, act[k]));
    let j = k - 1;
    assert(0 <= j < act.len() - 1);
    assert(j + 1 == k);
    assert(responds(ns[j], ss[j], act[j], ev[j + 1], ns[j + 1], ss[j + 1]));
    assert(st[k] == open_next(st[j], ev[j], today) && responds(ns[j], ss[j], act[j], ev[k], ns[k], ss[k]));
    assert(open_action_is(st[j], ev[j], today, act[j]));
    assert(answers(st[j], ev[j]));
    match st[k] {
        OpenState::AwaitMarked(n) => {
            assert(f == n);
            assert(j >= 1);
            let h = j - 1;
            assert(0 <= h < act.len() - 1);
            assert(responds(ns[h], ss[h], act[h], ev[h + 1], ns[h + 1], ss[h + 1]));
            assert(h + 1 == j);
            assert(st[j] == open_next(st[h], ev[h], today) && responds(ns[h], ss[h], act[h], ev[j], ns[j], ss[j]));
            assert(open_action_is(st[h], ev[h], today, act[h]));
            assert(ev[j] == OpenEvent::FoundNote(Some(n)));
            assert(ns[j].dom().contains(n.id@) && ns[j][n.id@] == n);
            assert(ns[k].dom().contains(n.id@));
            assert(opened_copy(ns[j][n.id@], ns[k][n.id@]));
        },
        OpenState::AwaitCreated => {
        },
        _ => {},
    }
}

/// From a store whose last opened note is still there and live, an opening
/// reads that note's identifier, finds the note, marks it and finishes with
/// it, creating nothing.
proof fn lemma_reopen(
    today: Seq<char>,
    st: Seq<OpenState>,
    ev: Seq<OpenEvent>,
    act: Seq<OpenAction>,
    ns: Seq<Map<Seq<char>, Note>>,
    ss: Seq<Map<Seq<char>, Seq<char>>>,
    id: Seq<char>,
)
    requires
        is_open_run(today, st, ev, act, ns, ss),
        store_ok(ns[0]),
        ss[0].dom().contains(last_opened_key()),
        ss[0][last_opened_key()] == id,
        ns[0].dom().contains(id),
        !ns[0][id].is_deleted,
    ensures
        act.len() == 4,
        finished_note(act.last()).id@ == id,
        forall|i: int| 0 <= i < act.len() ==> !(#[trigger] act[i] is CreateNote),
{
    assert(open_action_is(st[0], ev[0], today, act[0]));
    assert(act.len() > 1);
    assert(st[1] == open_next(st[0], ev[0], today) && responds(ns[0], ss[0], act[0], ev[1], ns[1], ss[1]));
    assert(open_action_is(st[1], ev[1], today, act[1]));
    assert(answers(st[1], ev[1]));
    let v = ev[1]->LastId_0;
    assert(v@ == id);
    assert(id.len() > 0);
    assert(act.len() > 2);
    assert(st[2] == open_next(st[1], ev[1], today) && responds(ns[1], ss[1], act[1], ev[2], ns[2], ss[2]));
    assert(open_action_is(st[2], ev[2], today, act[2]));
    assert(answers(st[2], ev[2]));
    let m = ns[0][id];
    assert(ev[2] == OpenEvent::FoundNote(Some(m)));
    assert(is_live_note(m, v@));
    assert(act.len() > 3);
    assert(st[3] == open_next(st[2], ev[2], today) && responds(ns[2], ss[2], act[2], ev[3], ns[3], ss[3]));
    assert(open_action_is(st[3], ev[3], today, act[3]));
    assert(answers(st[3], ev[3]));
    if act.len() > 4 {
        assert(st[4] == open_next(st[3], ev[3], today));
        assert(answers(st[4], ev[4]));
        assert(false);
    }
    assert(finished_note(act[3]) == m);
    assert forall|i: int| 0 <= i < act.len() implies !(#[trigger] act[i] is CreateNote) by {
        assert(i == 0 || i == 1 || i == 2 || i == 3);
    }
}

/// Opening twice with nothing else changing the store in between (and on the
/// same day) finishes the second time with the note the first opening finished
/// with, and the second opening creates no note.
pub proof fn law_reopening_gives_same_note(
    today: Seq<char>,
    st1: Seq<OpenState>,
    ev1: Seq<OpenEvent>,
    act1: Seq<OpenAction>,
    ns1: Seq<Map<Seq<char>, Note>>,
    ss1: Seq<Map<Seq<char>, Seq<char>>>,
    st2: Seq<OpenState>,
    ev2: Seq<OpenEvent>,
    act2: Seq<OpenAction>,
    ns2: Seq<Map<Seq<char>, Note>>,
    ss2: Seq<Map<Seq<char>, Seq<char>>>,
)
    requires
        store_ok(ns1[0]),
        is_open_run(today, st1, ev1, act1, ns1, ss1),
        is_open_run(today, st2, ev2, act2, ns2, ss2),
        ns2[0] == ns1.last(),
        ss2[0] == ss1.last(),
    ensures
        finished_note(act2.last()).id@ == finished_note(act1.last()).id@,
        forall|i: int| 0 <= i < act2.len() ==> !(#[trigger] act2[i] is CreateNote),
{
    law_opening_records_its_note(today, st1, ev1, act1, ns1, ss1);
    lemma_reopen(today, st2, ev2, act2, ns2, ss2, finished_note(act1.last()).id@);
}

/// The automatic backup is due when the date of the last one differs from
/// `today`.
pub open spec fn backup_due(last_backup_date: Seq<char>, today: Seq<char>) -> bool {
    last_backup_date != today
}

/// Once today's automatic backup is recorded, no other is due that day.
pub proof fn law_one_automatic_backup_a_day(today: Seq<char>)
    ensures
        !backup_due(today, today),
{
}

/// Whether the automatic backup is still due today: the date of the last one
/// differs from `today`.
pub fn daily_backup_due(last_backup_date: &str, today: &str) -> (due: bool)
    ensures
        due == backup_due(last_backup_date@, today@),
{
    !text_eq(last_backup_date, today)
}

} // verus!
