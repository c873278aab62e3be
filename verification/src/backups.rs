//! Backup copies of the database, listed newest first.

use vstd::prelude::*;
use crate::text::chars_of;

verus! {

/// A backup copy of the database.
pub struct BackupInfo {
    pub filename: String,
    pub size: u64,
    pub modified_at: String,
}

/// `a` sorts before `b` from position `i` on, comparing characters by code
/// point (which is how Rust orders `String`s, since UTF-8 keeps that order).
pub open spec fn before_from(a: Seq<char>, b: Seq<char>, i: nat) -> bool
    decreases a.len() - i,
{
    if i >= a.len() {
        i < b.len()
    } else if i >= b.len() {
        false
    } else if a[i as int] != b[i as int] {
        (a[i as int] as int) < (b[i as int] as int)
    } else {
        before_from(a, b, i + 1)
    }
}

/// `a` sorts before `b` in Rust's order of strings.
pub open spec fn text_before(a: Seq<char>, b: Seq<char>) -> bool {
    before_from(a, b, 0)
}

proof fn lemma_before_irreflexive(a: Seq<char>, i: nat)
    ensures
        !before_from(a, a, i),
    decreases a.len() - i,
{
    if i < a.len() {
        lemma_before_irreflexive(a, i + 1);
    }
}

proof fn lemma_before_transitive(a: Seq<char>, b: Seq<char>, c: Seq<char>, i: nat)
    requires
        before_from(a, b, i),
        before_from(b, c, i),
    ensures
        before_from(a, c, i),
    decreases a.len() - i,
{
    if i < a.len() && i < b.len() && i < c.len() && a[i as int] == b[i as int] && b[i as int]
        == c[i as int] {
        lemma_before_transitive(a, b, c, i + 1);
    }
}

proof fn lemma_before_total(a: Seq<char>, b: Seq<char>, i: nat)
    requires
        !before_from(a, b, i),
        !before_from(b, a, i),
        i <= a.len(),
        i <= b.len(),
    ensures
        a.len() == b.len(),
        forall|j: int| i <= j < a.len() ==> a[j] == b[j],
    decreases a.len() - i,
{
    if i < a.len() && i < b.len() {
        if a[i as int] == b[i as int] {
            lemma_before_total(a, b, i + 1);
        } else {
        }
    }
}

/// Rust's order of strings is a strict total order.
proof fn lemma_text_order(a: Seq<char>, b: Seq<char>, c: Seq<char>)
    ensures
        !text_before(a, a),
        text_before(a, b) && text_before(b, c) ==> text_before(a, c),
        !text_before(a, b) && !text_before(b, a) ==> a == b,
{
    lemma_before_irreflexive(a, 0);
    if text_before(a, b) && text_before(b, c) {
        lemma_before_transitive(a, b, c, 0);
    }
    if !text_before(a, b) && !text_before(b, a) {
        lemma_before_total(a, b, 0);
        assert(a =~= b);
    }
}

/// Whether `a` sorts before `b` in Rust's order of strings.
pub fn text_is_before(a: &str, b: &str) -> (r: bool)
    ensures
        r == text_before(a@, b@),
{
    let x = chars_of(a);
    let y = chars_of(b);
    let mut i: usize = 0;
    while i < x.len() && i < y.len() && x[i] == y[i]
        invariant
            x@ == a@,
            y@ == b@,
            i <= x.len(),
            i <= y.len(),
            before_from(a@, b@, 0) == before_from(a@, b@, i as nat),
        decreases x.len() - i,
    {
        i += 1;
    }
    if i >= x.len() {
        i < y.len()
    } else if i >= y.len() {
        false
    } else {
        x[i] < y[i]
    }
}

/// The backups of a list that were modified at `k`, in their order.
pub open spec fn with_time(s: Seq<BackupInfo>, k: Seq<char>) -> Seq<BackupInfo>
    decreases s.len(),
{
    if s.len() == 0 {
        Seq::empty()
    } else {
        with_time(s.drop_last(), k) + if s.last().modified_at@ == k {
            seq![s.last()]
        } else {
            Seq::empty()
        }
    }
}

/// Newest first: no backup is followed by a newer one.
pub open spec fn newest_first(s: Seq<BackupInfo>) -> bool {
    forall|i: int, j: int|
        0 <= i < j < s.len() ==> !text_before(
            #[trigger] s[i].modified_at@,
            #[trigger] s[j].modified_at@,
        )
}

proof fn lemma_with_time_concat(a: Seq<BackupInfo>, b: Seq<BackupInfo>, k: Seq<char>)
    ensures
        with_time(a + b, k) == with_time(a, k) + with_time(b, k),
    decreases b.len(),
{
    if b.len() == 0 {
        assert(a + b =~= a);
        assert(with_time(a, k) + with_time(b, k) =~= with_time(a, k));
    } else {
        lemma_with_time_concat(a, b.drop_last(), k);
        assert((a + b).drop_last() =~= a + b.drop_last());
        assert(with_time(a + b, k) =~= with_time(a, k) + with_time(b, k));
    }
}

proof fn lemma_with_time_none(s: Seq<BackupInfo>, k: Seq<char>)
    requires
        forall|q: int| 0 <= q < s.len() ==> (#[trigger] s[q]).modified_at@ != k,
    ensures
        with_time(s, k) == Seq::<BackupInfo>::empty(),
    decreases s.len(),
{
    if s.len() > 0 {
        lemma_with_time_none(s.drop_last(), k);
    }
}

/// Inserting `x` at `p` into a newest-first list where every backup before `p`
/// is not older than `x` and every backup from `p` on is older keeps it newest
/// first, and adds `x` behind the backups of its own time.
proof fn lemma_insert_at(r: Seq<BackupInfo>, p: int, x: BackupInfo)
    requires
        newest_first(r),
        0 <= p <= r.len(),
        forall|q: int| 0 <= q < p ==> !text_before(#[trigger] r[q].modified_at@, x.modified_at@),
        forall|q: int| p <= q < r.len() ==> text_before(#[trigger] r[q].modified_at@, x.modified_at@),
    ensures
        newest_first(r.insert(p, x)),
        forall|k: Seq<char>|
            #[trigger] with_time(r.insert(p, x), k) == with_time(r, k) + if x.modified_at@ == k {
                seq![x]
            } else {
                Seq::empty()
            },
{
    let s = r.insert(p, x);
    assert forall|i: int, j: int| 0 <= i < j < s.len() implies !text_before(
        #[trigger] s[i].modified_at@,
        #[trigger] s[j].modified_at@,
    ) by {
        let a = s[i].modified_at@;
        let b = s[j].modified_at@;
        lemma_text_order(a, b, x.modified_at@);
        lemma_text_order(b, a, x.modified_at@);
        lemma_text_order(a, x.modified_at@, b);
        lemma_text_order(x.modified_at@, a, b);
        lemma_text_order(b, x.modified_at@, a);
        if i < p && j < p {
            assert(s[i] == r[i] && s[j] == r[j]);
        } else if i < p && j == p {
        } else if i < p {
            assert(s[i] == r[i] && s[j] == r[j - 1]);
            assert(text_before(b, x.modified_at@));
        } else if i == p {
            assert(s[j] == r[j - 1]);
        } else {
            assert(s[i] == r[i - 1] && s[j] == r[j - 1]);
        }
    }
    assert forall|k: Seq<char>|
        #[trigger] with_time(r.insert(p, x), k) == with_time(r, k) + if x.modified_at@ == k {
            seq![x]
        } else {
            Seq::empty()
        } by {
        let front = r.take(p);
        let back = r.skip(p);
        assert(r =~= front + back);
        assert(s =~= front + seq![x] + back);
        lemma_with_time_concat(front + seq![x], back, k);
        lemma_with_time_concat(front, seq![x], k);
        lemma_with_time_concat(front, back, k);
        assert(seq![x].drop_last() =~= Seq::<BackupInfo>::empty());
        assert(with_time(Seq::<BackupInfo>::empty(), k) == Seq::<BackupInfo>::empty());
        assert(with_time(seq![x], k) =~= if x.modified_at@ == k {
            seq![x]
        } else {
            Seq::<BackupInfo>::empty()
        });
        if x.modified_at@ == k {
            assert forall|q: int| 0 <= q < back.len() implies (#[trigger] back[q]).modified_at@ != k by {
                assert(back[q] == r[p + q]);
                lemma_text_order(k, k, k);
            }
            lemma_with_time_none(back, k);
            assert(with_time(s, k) =~= with_time(r, k) + seq![x]);
        } else {
            assert(with_time(s, k) =~= with_time(r, k));
        }
    }
}

/// Backups listed newest first by modification time; backups of the same time
/// keep the order in which they came (a stable sort).
pub fn sort_backups(items: Vec<BackupInfo>) -> (r: Vec<BackupInfo>)
    ensures
        r@.len() == items@.len(),
        newest_first(r@),
        forall|k: Seq<char>| #[trigger] with_time(r@, k) == with_time(items@, k),
{
    let ghost all = items@;
    let mut r: Vec<BackupInfo> = Vec::new();
    for x in it: items.into_iter()
        invariant
            it.seq() == all,
            r@.len() == it.index(),
            newest_first(r@),
            forall|k: Seq<char>| #[trigger] with_time(r@, k) == with_time(all.take(it.index() as int), k),
    {
        let ghost n = it.index();
        proof {
            assert(all[n as int] == x);
            assert(all.take(n + 1) =~= all.take(n as int).push(x));
            assert(all.take(n + 1).drop_last() =~= all.take(n as int));
        }
        let mut p: usize = 0;
        while p < r.len() && !text_is_before(r[p].modified_at.as_str(), x.modified_at.as_str())
            invariant
                p <= r.len(),
                forall|q: int| 0 <= q < p ==> !text_before(#[trigger] r@[q].modified_at@, x.modified_at@),
            decreases r.len() - p,
        {
            p += 1;
        }
        proof {
            assert forall|q: int| p <= q < r@.len() implies text_before(#[trigger] r@[q].modified_at@, x.modified_at@) by {
                if q > p {
                    let a = r@[q].modified_at@;
                    let b = r@[p as int].modified_at@;
                    assert(!text_before(b, a));
                    lemma_text_order(a, b, x.modified_at@);
                    lemma_text_order(b, a, x.modified_at@);
                }
            }
            lemma_insert_at(r@, p as int, x);
        }
        let ghost old_r = r@;
        r.insert(p, x);
        proof {
            assert forall|k: Seq<char>| #[trigger] with_time(r@, k) == with_time(all.take(n + 1), k) by {
                assert(with_time(old_r, k) == with_time(all.take(n as int), k));
            }
        }
    }
    proof {
        assert(all.take(all.len() as int) =~= all);
    }
    r
}

} // verus!
