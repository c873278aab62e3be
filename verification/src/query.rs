//! The query that lists notes.

use vstd::prelude::*;
use crate::text::push_text;

verus! {

/// What to list: deleted notes or live ones, optionally only one category and
/// only notes whose title or content contains a search text.
pub struct ListInput {
    pub deleted: Option<bool>,
    pub search: Option<String>,
    pub category_id: Option<String>,
}

/// An SQL statement and the values bound to its `?` placeholders, in order.
pub struct NotesQuery {
    pub sql: String,
    pub values: Vec<String>,
}

/// The statement's start: live or deleted notes.
pub open spec fn select_part() -> Seq<char> {
    "SELECT * FROM notes WHERE is_deleted = ?"@
}

/// The category condition.
pub open spec fn category_part() -> Seq<char> {
    " AND category_id = ?"@
}

/// The search condition, on title and content.
pub open spec fn search_part() -> Seq<char> {
    " AND (title LIKE ? OR content LIKE ?)"@
}

/// The order: pinned first, then most recently updated.
pub open spec fn order_part() -> Seq<char> {
    " ORDER BY is_pinned DESC, updated_at DESC"@
}

/// The listing statement: the category condition is present when a category
/// is given, the search condition when a search text is given; pinned notes
/// come first, then the most recently updated.
pub open spec fn notes_sql(with_category: bool, with_search: bool) -> Seq<char> {
    select_part() + (if with_category { category_part() } else { Seq::empty() }) + (if with_search {
        search_part()
    } else {
        Seq::empty()
    }) + order_part()
}

/// The pattern that `LIKE` matches against any text containing `search`.
pub open spec fn like_pattern(search: Seq<char>) -> Seq<char> {
    seq!['%'] + search + seq!['%']
}

/// The bound values: `1` or `0` for the deleted flag, then the category when
/// given, then the search pattern twice (title and content) when given.
pub open spec fn notes_values(deleted: bool, category: Seq<char>, search: Seq<char>) -> Seq<Seq<char>> {
    seq![if deleted { seq!['1'] } else { seq!['0'] }] + (if category.len() > 0 {
        seq![category]
    } else {
        Seq::empty()
    }) + (if search.len() > 0 {
        seq![like_pattern(search), like_pattern(search)]
    } else {
        Seq::empty()
    })
}

/// The text of an optional string, empty when there is none.
pub open spec fn text_or_empty(s: Option<String>) -> Seq<char> {
    match s {
        Some(t) => t@,
        None => Seq::empty(),
    }
}

/// The views of a list of strings.
pub open spec fn views(v: Seq<String>) -> Seq<Seq<char>> {
    v.map_values(|s: String| s@)
}

fn text_of(s: Option<String>) -> (r: String)
    ensures
        r@ == text_or_empty(s),
{
    match s {
        Some(t) => t,
        None => String::new(),
    }
}

fn like_of(search: &String) -> (r: String)
    ensures
        r@ == like_pattern(search@),
{
    let mut r = String::new();
    r.push('%');
    push_text(&mut r, search.as_str());
    r.push('%');
    r
}

/// The statement and values that list the notes `input` asks for, as
/// `notes_sql` and `notes_values` state.
pub fn notes_query(input: ListInput) -> (q: NotesQuery)
    ensures
        q.sql@ == notes_sql(
            text_or_empty(input.category_id).len() > 0,
            text_or_empty(input.search).len() > 0,
        ),
        views(q.values@) == notes_values(
            match input.deleted {
                Some(d) => d,
                None => false,
            },
            text_or_empty(input.category_id),
            text_or_empty(input.search),
        ),
{
    let deleted = match input.deleted {
        Some(d) => d,
        None => false,
    };
    let search = text_of(input.search);
    let category_id = text_of(input.category_id);
    let mut sql = String::new();
    push_text(&mut sql, "SELECT * FROM notes WHERE is_deleted = ?");
    let mut values: Vec<String> = Vec::new();
    let mut flag = String::new();
    flag.push(if deleted { '1' } else { '0' });
    values.push(flag);
    let has_category = !category_id.as_str().is_empty();
    let has_search = !search.as_str().is_empty();
    if has_category {
        push_text(&mut sql, " AND category_id = ?");
        values.push(category_id);
    }
    if has_search {
        push_text(&mut sql, " AND (title LIKE ? OR content LIKE ?)");
        let a = like_of(&search);
        let b = like_of(&search);
        values.push(a);
        values.push(b);
    }
    push_text(&mut sql, " ORDER BY is_pinned DESC, updated_at DESC");
    proof {
        assert(views(values@) =~= notes_values(deleted, category_id@, search@));
        assert(sql@ =~= notes_sql(has_category, has_search));
    }
    NotesQuery { sql, values }
}


/// Number of `?` placeholders in a statement from position `i` on.
pub open spec fn placeholders_from(s: Seq<char>, i: nat) -> nat
    decreases s.len() - i,
{
    if i >= s.len() {
        0
    } else {
        (if s[i as int] == '?' { 1nat } else { 0nat }) + placeholders_from(s, i + 1)
    }
}

/// Number of `?` placeholders in a statement.
pub open spec fn placeholders(s: Seq<char>) -> nat {
    placeholders_from(s, 0)
}

proof fn lemma_placeholders_shift(a: Seq<char>, b: Seq<char>, j: nat)
    ensures
        placeholders_from(a + b, a.len() + j) == placeholders_from(b, j),
    decreases b.len() - j,
{
    if j < b.len() {
        lemma_placeholders_shift(a, b, j + 1);
        assert((a + b)[(a.len() + j) as int] == b[j as int]);
    }
}

proof fn lemma_placeholders_prefix(a: Seq<char>, b: Seq<char>, i: nat)
    requires
        i <= a.len(),
    ensures
        placeholders_from(a + b, i) == placeholders_from(a, i) + placeholders(b),
    decreases a.len() - i,
{
    if i == a.len() {
        lemma_placeholders_shift(a, b, 0);
    } else {
        lemma_placeholders_prefix(a, b, i + 1);
        assert((a + b)[i as int] == a[i as int]);
    }
}

/// Placeholders of two texts put together add up.
pub proof fn lemma_placeholders_concat(a: Seq<char>, b: Seq<char>)
    ensures
        placeholders(a + b) == placeholders(a) + placeholders(b),
{
    lemma_placeholders_prefix(a, b, 0);
}

proof fn lemma_part_placeholders()
    ensures
        placeholders(select_part()) == 1,
        placeholders(category_part()) == 1,
        placeholders(search_part()) == 2,
        placeholders(order_part()) == 0,
{
    reveal_strlit("SELECT * FROM notes WHERE is_deleted = ?");
    reveal_strlit(" AND category_id = ?");
    reveal_strlit(" AND (title LIKE ? OR content LIKE ?)");
    reveal_strlit(" ORDER BY is_pinned DESC, updated_at DESC");
    reveal_with_fuel(placeholders_from, 45);
}

/// The listing statement has exactly one `?` placeholder per bound value.
pub proof fn law_placeholders_match_values(deleted: bool, category: Seq<char>, search: Seq<char>)
    ensures
        placeholders(notes_sql(category.len() > 0, search.len() > 0)) == notes_values(
            deleted,
            category,
            search,
        ).len(),
{
    lemma_part_placeholders();
    let c = if category.len() > 0 { category_part() } else { Seq::empty() };
    let s = if search.len() > 0 { search_part() } else { Seq::empty() };
    lemma_placeholders_concat(select_part(), c);
    lemma_placeholders_concat(select_part() + c, s);
    lemma_placeholders_concat(select_part() + c + s, order_part());
    assert(placeholders(Seq::<char>::empty()) == 0);
}

/// Which notes are listed depends on the deleted flag alone: the first bound
/// value is `1` (the bin) when deleted notes are asked for and `0` (live notes)
/// otherwise, whatever the category and search; the category, when given,
/// comes next as it is, and the search, when given, comes last as two
/// `%search%` patterns.
pub proof fn law_values_follow_the_input(deleted: bool, category: Seq<char>, search: Seq<char>)
    ensures
        notes_values(deleted, category, search).len() >= 1,
        notes_values(deleted, category, search)[0] == (if deleted { seq!['1'] } else { seq!['0'] }),
        forall|c2: Seq<char>, s2: Seq<char>|
            #[trigger] notes_values(deleted, c2, s2)[0] == notes_values(deleted, category, search)[0],
        notes_values(true, category, search)[0] != notes_values(false, category, search)[0],
        category.len() > 0 ==> notes_values(deleted, category, search)[1] == category,
        search.len() > 0 ==> {
            let v = notes_values(deleted, category, search);
            &&& v[v.len() - 1] == seq!['%'] + search + seq!['%']
            &&& v[v.len() - 2] == seq!['%'] + search + seq!['%']
        },
{
    assert(seq!['1'][0] != seq!['0'][0]);
}

} // verus!
