//! Categories and settings the database starts with, and which settings a
//! user may change.

use vstd::prelude::*;
use crate::text::text_eq;

verus! {

/// A category of notes.
pub struct Category {
    pub id: String,
    pub name: String,
    pub sort_order: i64,
    pub created_at: String,
}

/// The categories a new database starts with, in their sort order: identifier
/// and name.
pub open spec fn default_category_table() -> Seq<(Seq<char>, Seq<char>)> {
    seq![
        ("diary"@, "日记"@),
        ("quote"@, "摘抄"@),
        ("idea"@, "想法"@),
        ("study"@, "学习"@),
        ("project"@, "项目"@),
        ("mood"@, "情绪"@),
    ]
}

/// The default categories, made at `ts`: the `i`-th has sort order `i`.
pub open spec fn are_default_categories(c: Seq<Category>, ts: Seq<char>) -> bool {
    &&& c.len() == default_category_table().len()
    &&& forall|i: int|
        0 <= i < c.len() ==> {
            &&& (#[trigger] c[i]).id@ == default_category_table()[i].0
            &&& c[i].name@ == default_category_table()[i].1
            &&& c[i].sort_order == i
            &&& c[i].created_at@ == ts
        }
}

fn category(id: &str, name: &str, sort_order: i64, ts: &String) -> (c: Category)
    ensures
        c.id@ == id@,
        c.name@ == name@,
        c.sort_order == sort_order,
        c.created_at@ == ts@,
{
    Category { id: id.to_owned(), name: name.to_owned(), sort_order, created_at: ts.clone() }
}

/// The categories a new database starts with, made at `ts`.
pub fn default_categories(ts: &String) -> (c: Vec<Category>)
    ensures
        are_default_categories(c@, ts@),
{
    let mut c: Vec<Category> = Vec::new();
    c.push(category("diary", "日记", 0, ts));
    c.push(category("quote", "摘抄", 1, ts));
    c.push(category("idea", "想法", 2, ts));
    c.push(category("study", "学习", 3, ts));
    c.push(category("project", "项目", 4, ts));
    c.push(category("mood", "情绪", 5, ts));
    c
}

/// A category as the table holds it: identifier, name, sort order, creation time.
pub open spec fn category_row(c: Category) -> (Seq<char>, Seq<char>, int, Seq<char>) {
    (c.id@, c.name@, c.sort_order as int, c.created_at@)
}

/// The rows of the default categories made at `ts`.
pub open spec fn default_category_rows(ts: Seq<char>) -> Seq<(Seq<char>, Seq<char>, int, Seq<char>)> {
    Seq::new(
        default_category_table().len(),
        |i: int| (default_category_table()[i].0, default_category_table()[i].1, i, ts),
    )
}

/// The categories to insert when the database holds `count` of them: the
/// defaults when it holds none, else nothing.
pub fn seed_categories(count: i64, ts: &String) -> (c: Vec<Category>)
    ensures
        count == 0 ==> are_default_categories(c@, ts@),
        count == 0 ==> c@.map_values(|x: Category| category_row(x)) == default_category_rows(ts@),
        count != 0 ==> c@.len() == 0,
{
    if count == 0 {
        let c = default_categories(ts);
        assert(c@.map_values(|x: Category| category_row(x)) =~= default_category_rows(ts@));
        c
    } else {
        Vec::new()
    }
}

/// The settings every database holds, with the value each takes when unset.
pub open spec fn default_setting_table() -> Seq<(Seq<char>, Seq<char>)> {
    seq![("font_size"@, "18"@), ("theme"@, "rose"@), ("sidebar_width"@, "330"@)]
}

/// The settings every database holds, each with its default value.
pub fn default_settings() -> (s: Vec<(String, String)>)
    ensures
        s@.len() == default_setting_table().len(),
        forall|i: int|
            0 <= i < s@.len() ==> (#[trigger] s@[i]).0@ == default_setting_table()[i].0
                && s@[i].1@ == default_setting_table()[i].1,
{
    let mut s: Vec<(String, String)> = Vec::new();
    s.push(("font_size".to_owned(), "18".to_owned()));
    s.push(("theme".to_owned(), "rose".to_owned()));
    s.push(("sidebar_width".to_owned(), "330".to_owned()));
    s
}

/// The value of a setting as read: the stored value, or `default` when it is
/// unset.
pub fn setting_or_default(found: Option<String>, default: &str) -> (v: String)
    ensures
        v@ == match found {
            Some(s) => s@,
            None => default@,
        },
{
    match found {
        Some(s) => s,
        None => default.to_owned(),
    }
}

/// The value of setting `key` in `settings`, or `default` when it is unset.
pub open spec fn value_or(settings: Map<Seq<char>, Seq<char>>, key: Seq<char>, default: Seq<char>) -> Seq<char> {
    if settings.dom().contains(key) {
        settings[key]
    } else {
        default
    }
}

/// The settings after setup: each default setting is read (with its default
/// value when unset) and then written back.
pub open spec fn settings_after_setup(s: Map<Seq<char>, Seq<char>>) -> Map<Seq<char>, Seq<char>> {
    let t = default_setting_table();
    s.insert(t[0].0, value_or(s, t[0].0, t[0].1)).insert(t[1].0, value_or(s, t[1].0, t[1].1)).insert(
        t[2].0,
        value_or(s, t[2].0, t[2].1),
    )
}

/// The settings after writing each pair of `w`, in order.
pub open spec fn apply_writes(s: Map<Seq<char>, Seq<char>>, w: Seq<(String, String)>) -> Map<Seq<char>, Seq<char>>
    decreases w.len(),
{
    if w.len() == 0 {
        s
    } else {
        apply_writes(s, w.drop_last()).insert(w.last().0@, w.last().1@)
    }
}

/// What a read of setting `key` from `settings` returns.
pub open spec fn stored(settings: Map<Seq<char>, Seq<char>>, key: Seq<char>) -> Option<Seq<char>> {
    if settings.dom().contains(key) {
        Some(settings[key])
    } else {
        None
    }
}

/// The view of an optional text.
pub open spec fn opt_view(o: Option<String>) -> Option<Seq<char>> {
    match o {
        Some(v) => Some(v@),
        None => None,
    }
}

/// The writes setup makes to the settings, given what reading each default
/// setting returned (in the order of `default_settings`): every default setting
/// is written back with its stored value, or its default when it was unset.
pub fn setup_setting_writes(read: Vec<Option<String>>) -> (w: Vec<(String, String)>)
    requires
        read@.len() == default_setting_table().len(),
    ensures
        w@.len() == default_setting_table().len(),
        forall|i: int|
            0 <= i < w@.len() ==> (#[trigger] w@[i]).0@ == default_setting_table()[i].0 && w@[i].1@
                == match read@[i] {
                Some(v) => v@,
                None => default_setting_table()[i].1,
            },
{
    let ghost r = read@;
    let mut rest = read;
    let c = rest.pop().unwrap();
    let b = rest.pop().unwrap();
    let a = rest.pop().unwrap();
    assert(a == r[0] && b == r[1] && c == r[2]);
    let mut w: Vec<(String, String)> = Vec::new();
    w.push(("font_size".to_owned(), setting_or_default(a, "18")));
    w.push(("theme".to_owned(), setting_or_default(b, "rose")));
    w.push(("sidebar_width".to_owned(), setting_or_default(c, "330")));
    w
}

/// Writing what `setup_setting_writes` returns for the values read from the
/// settings gives exactly the settings after setup.
pub proof fn law_setup_writes_give_setup(
    s: Map<Seq<char>, Seq<char>>,
    read: Seq<Option<String>>,
    w: Seq<(String, String)>,
)
    requires
        read.len() == default_setting_table().len(),
        forall|i: int| 0 <= i < read.len() ==> opt_view(#[trigger] read[i]) == stored(s, default_setting_table()[i].0),
        w.len() == default_setting_table().len(),
        forall|i: int|
            0 <= i < w.len() ==> (#[trigger] w[i]).0@ == default_setting_table()[i].0 && w[i].1@
                == match read[i] {
                Some(v) => v@,
                None => default_setting_table()[i].1,
            },
    ensures
        apply_writes(s, w) == settings_after_setup(s),
{
    let t = default_setting_table();
    assert(opt_view(read[0]) == stored(s, t[0].0));
    assert(opt_view(read[1]) == stored(s, t[1].0));
    assert(opt_view(read[2]) == stored(s, t[2].0));
    assert(w[0].0@ == t[0].0 && w[1].0@ == t[1].0 && w[2].0@ == t[2].0);
    assert(w[0].1@ == value_or(s, t[0].0, t[0].1));
    assert(w[1].1@ == value_or(s, t[1].0, t[1].1));
    assert(w[2].1@ == value_or(s, t[2].0, t[2].1));
    assert(w.drop_last().drop_last().drop_last() =~= Seq::<(String, String)>::empty());
    assert(w.drop_last().drop_last().last() == w[0]);
    assert(w.drop_last().last() == w[1]);
    assert(apply_writes(s, w.drop_last().drop_last().drop_last()) == s);
    assert(apply_writes(s, w.drop_last().drop_last()) == s.insert(w[0].0@, w[0].1@));
    assert(apply_writes(s, w.drop_last()) == s.insert(w[0].0@, w[0].1@).insert(w[1].0@, w[1].1@));
}

/// The category rows after setup at `ts`: the defaults when the table is
/// empty, else the rows as they are.
pub open spec fn categories_after_setup(
    rows: Seq<(Seq<char>, Seq<char>, int, Seq<char>)>,
    ts: Seq<char>,
) -> Seq<(Seq<char>, Seq<char>, int, Seq<char>)> {
    if rows.len() == 0 {
        default_category_rows(ts)
    } else {
        rows
    }
}

/// Setting the database up a second time, at any later time, changes nothing:
/// no category is added twice, and every setting keeps its value.
pub proof fn law_setup_twice_same_as_once(
    rows: Seq<(Seq<char>, Seq<char>, int, Seq<char>)>,
    settings: Map<Seq<char>, Seq<char>>,
    ts1: Seq<char>,
    ts2: Seq<char>,
)
    ensures
        categories_after_setup(categories_after_setup(rows, ts1), ts2) == categories_after_setup(rows, ts1),
        settings_after_setup(settings_after_setup(settings)) == settings_after_setup(settings),
{
    let t = default_setting_table();
    reveal_strlit("font_size");
    reveal_strlit("theme");
    reveal_strlit("sidebar_width");
    assert(t[0].0.len() == 9 && t[1].0.len() == 5 && t[2].0.len() == 13);
    assert(t[0].0 != t[1].0);
    assert(t[0].0 != t[2].0);
    assert(t[1].0 != t[2].0);
    let s1 = settings_after_setup(settings);
    assert(s1.dom().contains(t[0].0) && s1.dom().contains(t[1].0) && s1.dom().contains(t[2].0));
    assert(s1[t[0].0] == value_or(settings, t[0].0, t[0].1));
    assert(s1[t[1].0] == value_or(settings, t[1].0, t[1].1));
    assert(settings_after_setup(s1) =~= s1);
    assert(default_category_rows(ts1).len() == 6);
}

/// The settings a user may change.
pub open spec fn saved_setting_keys() -> Seq<Seq<char>> {
    seq!["font_size"@, "theme"@, "sidebar_width"@, "last_opened_note_id"@]
}

/// Whether a user may change the setting `key`.
pub fn is_saved_setting(key: &str) -> (b: bool)
    ensures
        b == saved_setting_keys().contains(key@),
{
    let r = text_eq(key, "font_size") || text_eq(key, "theme") || text_eq(key, "sidebar_width")
        || text_eq(key, "last_opened_note_id");
    proof {
        let k = saved_setting_keys();
        if r {
            if key@ == "font_size"@ {
                assert(k[0] == key@);
            } else if key@ == "theme"@ {
                assert(k[1] == key@);
            } else if key@ == "sidebar_width"@ {
                assert(k[2] == key@);
            } else {
                assert(k[3] == key@);
            }
        }
    }
    r
}

/// The entries of a settings change that are kept: those whose key a user may
/// change, in their order.
pub open spec fn kept_settings(s: Seq<(String, String)>) -> Seq<(String, String)>
    decreases s.len(),
{
    if s.len() == 0 {
        Seq::empty()
    } else {
        kept_settings(s.drop_last()) + if saved_setting_keys().contains(s.last().0@) {
            seq![s.last()]
        } else {
            Seq::empty()
        }
    }
}

/// The entries of a settings change that are written: those whose key a user
/// may change; the others are dropped.
pub fn settings_to_save(patch: Vec<(String, String)>) -> (r: Vec<(String, String)>)
    ensures
        r@ == kept_settings(patch@),
{
    let ghost all = patch@;
    let mut r: Vec<(String, String)> = Vec::new();
    for e in it: patch.into_iter()
        invariant
            it.seq() == all,
            r@ == kept_settings(all.take(it.index() as int)),
    {
        proof {
            assert(all.take(it.index() + 1).drop_last() =~= all.take(it.index() as int));
        }
        if is_saved_setting(e.0.as_str()) {
            r.push(e);
        }
    }
    proof {
        assert(all.take(all.len() as int) =~= all);
    }
    r
}


/// A settings change writes exactly its entries whose key a user may change:
/// every written entry comes from the change and has such a key, and every such
/// entry of the change is written.
pub proof fn law_saved_settings_are_the_allowed_ones(s: Seq<(String, String)>)
    ensures
        forall|e: (String, String)|
            #![trigger kept_settings(s).contains(e)]
            #![trigger s.contains(e)]
            kept_settings(s).contains(e) <==> (s.contains(e) && saved_setting_keys().contains(e.0@)),
    decreases s.len(),
{
    if s.len() > 0 {
        let init = s.drop_last();
        law_saved_settings_are_the_allowed_ones(init);
        assert(s =~= init.push(s.last()));
        assert forall|e: (String, String)|
            #![trigger kept_settings(s).contains(e)]
            #![trigger s.contains(e)]
            kept_settings(s).contains(e) <==> (s.contains(e) && saved_setting_keys().contains(e.0@)) by {
            let tail: Seq<(String, String)> = if saved_setting_keys().contains(s.last().0@) {
                seq![s.last()]
            } else {
                Seq::empty()
            };
            assert(kept_settings(s) == kept_settings(init) + tail);
            if kept_settings(s).contains(e) {
                let k = choose|k: int| 0 <= k < kept_settings(s).len() && kept_settings(s)[k] == e;
                if k < kept_settings(init).len() {
                    assert(kept_settings(init)[k] == e);
                    assert(kept_settings(init).contains(e));
                    assert(init.contains(e));
                    let m = choose|m: int| 0 <= m < init.len() && init[m] == e;
                    assert(s[m] == e);
                } else {
                    assert(tail[k - kept_settings(init).len()] == e);
                    assert(s[s.len() - 1] == e);
                }
            }
            if s.contains(e) && saved_setting_keys().contains(e.0@) {
                let m = choose|m: int| 0 <= m < s.len() && s[m] == e;
                if m < s.len() - 1 {
                    assert(init[m] == e);
                    assert(init.contains(e));
                    assert(kept_settings(init).contains(e));
                    let k = choose|k: int| 0 <= k < kept_settings(init).len() && kept_settings(init)[k] == e;
                    assert(kept_settings(s)[k] == e);
                } else {
                    assert(kept_settings(s)[kept_settings(init).len() as int] == e);
                }
            }
        }
    }
}

} // verus!
