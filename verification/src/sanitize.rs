//! Removal of `<script>` elements from note content.
//!
//! Tags are recognised without regard to the case of ASCII letters, so
//! `<SCRIPT>` and `<ScRiPt>` are removed as well as `<script>`.  The content
//! is handled as a sequence of characters: positions are character positions,
//! so a character whose lower-case form takes a different number of UTF-8 bytes
//! (such as `Ⱥ` or `İ`) in front of a tag changes neither where the tag is found
//! nor what is removed: `Ⱥ<script>x</script>abc` becomes `Ⱥabc`.

use vstd::prelude::*;
use crate::text::chars_of;
use crate::text::string_of;

verus! {

/// The code of `c` with ASCII capitals mapped to their small letters.
pub open spec fn folded_code(c: char) -> u32 {
    let u = c as u32;
    if 65 <= u && u <= 90 { (u + 32) as u32 } else { u }
}

/// `s` holds the pattern `p` at position `i`, ignoring the case of ASCII letters
/// (`p` is written in small letters).
pub open spec fn matches_at(s: Seq<char>, i: int, p: Seq<char>) -> bool {
    &&& 0 <= i
    &&& i + p.len() <= s.len()
    &&& forall|k: int| 0 <= k < p.len() ==> folded_code(#[trigger] s[i + k]) == p[k] as u32
}

/// The first position at or after `from` where `s` holds `p`, ignoring case.
pub open spec fn find_from(s: Seq<char>, p: Seq<char>, from: nat) -> Option<nat>
    decreases s.len() - from,
{
    if from + p.len() > s.len() {
        None
    } else if matches_at(s, from as int, p) {
        Some(from)
    } else {
        find_from(s, p, from + 1)
    }
}

/// The opening tag, `<script`.
pub open spec fn open_tag() -> Seq<char> {
    seq!['<', 's', 'c', 'r', 'i', 'p', 't']
}

/// The closing tag, `</script>`.
pub open spec fn close_tag() -> Seq<char> {
    seq!['<', '/', 's', 'c', 'r', 'i', 'p', 't', '>']
}

/// What `find_from` returns: the first match at or after `from`, or `None` when there is none.
pub proof fn lemma_find_from(s: Seq<char>, p: Seq<char>, from: nat)
    ensures
        match find_from(s, p, from) {
            Some(r) => {
                &&& from <= r
                &&& r + p.len() <= s.len()
                &&& matches_at(s, r as int, p)
                &&& forall|k: int| from <= k < r ==> !matches_at(s, k, p)
            },
            None => forall|k: int| from <= k ==> !matches_at(s, k, p),
        },
    decreases s.len() - from,
{
    if from + p.len() > s.len() {
    } else if matches_at(s, from as int, p) {
    } else {
        lemma_find_from(s, p, from + 1);
    }
}

/// The content with every `<script ...</script>` element removed, and with
/// everything from an unclosed `<script` to the end removed.  Removal is
/// repeated until no opening tag is left.
pub open spec fn sanitized(s: Seq<char>) -> Seq<char>
    decreases s.len(),
{
    match find_from(s, open_tag(), 0) {
        None => s,
        Some(i) => match find_from(s, close_tag(), i) {
            None => s.take(i as int),
            Some(j) => {
                proof {
                    lemma_find_from(s, open_tag(), 0);
                    lemma_find_from(s, close_tag(), i);
                }
                sanitized(s.take(i as int) + s.skip((j + 9) as int))
            },
        },
    }
}

fn folds_to(c: char, p: char) -> (b: bool)
    ensures
        b == (folded_code(c) == p as u32),
{
    let u = c as u32;
    let l: u32 = if 65 <= u && u <= 90 { u + 32 } else { u };
    l == p as u32
}

fn matches_here(s: &Vec<char>, i: usize, p: &Vec<char>) -> (b: bool)
    requires
        i + p.len() <= s.len(),
    ensures
        b == matches_at(s@, i as int, p@),
{
    let mut k: usize = 0;
    while k < p.len()
        invariant
            k <= p.len(),
            i + p.len() <= s.len(),
            forall|m: int| 0 <= m < k ==> folded_code(#[trigger] s@[i + m]) == p@[m] as u32,
        decreases p.len() - k,
    {
        if !folds_to(s[i + k], p[k]) {
            assert(!(folded_code(s@[i + k]) == p@[k as int] as u32));
            return false;
        }
        k += 1;
    }
    true
}

/// The first position at or after `from` where `s` holds `p`, ignoring case.
fn find_folded(s: &Vec<char>, p: &Vec<char>, from: usize) -> (r: Option<usize>)
    ensures
        match r {
            Some(x) => find_from(s@, p@, from as nat) == Some(x as nat),
            None => find_from(s@, p@, from as nat) is None,
        },
{
    if p.len() > s.len() {
        return None;
    }
    let last = s.len() - p.len();
    let mut i = from;
    while i <= last
        invariant
            last + p.len() == s.len(),
            from <= i,
            find_from(s@, p@, from as nat) == find_from(s@, p@, i as nat),
        decreases last + 1 - i,
    {
        if matches_here(s, i, p) {
            return Some(i);
        }
        i += 1;
    }
    None
}

/// Removes script elements from note content, as `sanitized` states: the first
/// `<script` (any ASCII case) is removed together with everything up to and
/// including the next `</script>`, or up to the end when no closing tag follows,
/// and this repeats until no `<script` is left.
pub fn sanitize_content(value: &str) -> (out: String)
    ensures
        out@ == sanitized(value@),
{
    let open: Vec<char> = vec!['<', 's', 'c', 'r', 'i', 'p', 't'];
    let close: Vec<char> = vec!['<', '/', 's', 'c', 'r', 'i', 'p', 't', '>'];
    assert(open@ =~= open_tag());
    assert(close@ =~= close_tag());
    let mut cur = chars_of(value);
    loop
        invariant
            open@ == open_tag(),
            close@ == close_tag(),
            sanitized(cur@) == sanitized(value@),
        ensures
            sanitized(cur@) == sanitized(value@),
            find_from(cur@, open_tag(), 0) is None,
        decreases cur.len(),
    {
        let ghost before = cur@;
        match find_folded(&cur, &open, 0) {
            None => {
                break;
            },
            Some(i) => {
                proof {
                    lemma_find_from(before, open_tag(), 0);
                }
                match find_folded(&cur, &close, i) {
                    None => {
                        cur.truncate(i);
                        proof {
                            lemma_clean_prefix(before, i as nat);
                        }
                    },
                    Some(j) => {
                        proof {
                            lemma_find_from(before, close_tag(), i as nat);
                        }
                        let mut tail = cur.split_off(j + 9);
                        cur.truncate(i);
                        cur.append(&mut tail);
                        assert(cur@ =~= before.take(i as int) + before.skip(j + 9));
                    },
                }
            },
        }
    }
    string_of(&cur)
}

/// The part before the first opening tag holds no opening tag, so it is left
/// as it is.
proof fn lemma_clean_prefix(s: Seq<char>, i: nat)
    requires
        find_from(s, open_tag(), 0) == Some(i),
    ensures
        find_from(s.take(i as int), open_tag(), 0) is None,
        sanitized(s.take(i as int)) == s.take(i as int),
{
    lemma_find_from(s, open_tag(), 0);
    let t = s.take(i as int);
    lemma_find_from(t, open_tag(), 0);
    if let Some(k) = find_from(t, open_tag(), 0) {
        assert forall|m: int| 0 <= m < open_tag().len() implies folded_code(#[trigger] s[k + m]) == open_tag()[m] as u32 by {
            assert(t[k + m] == s[k + m]);
        }
        assert(matches_at(s, k as int, open_tag()));
    }
}


/// No `<script` (in any ASCII case) is left in sanitized content.
pub proof fn law_sanitized_has_no_script_tag(s: Seq<char>)
    ensures
        forall|i: int| !matches_at(sanitized(s), i, open_tag()),
    decreases s.len(),
{
    lemma_find_from(s, open_tag(), 0);
    match find_from(s, open_tag(), 0) {
        None => {
            assert(sanitized(s) == s);
            assert forall|k: int| !matches_at(sanitized(s), k, open_tag()) by {
                if 0 <= k {
                    assert(!matches_at(s, k, open_tag()));
                }
            }
        },
        Some(i) => {
            lemma_find_from(s, close_tag(), i);
            match find_from(s, close_tag(), i) {
                None => {
                    lemma_clean_prefix(s, i);
                    let t = s.take(i as int);
                    assert(sanitized(s) == t);
                    lemma_find_from(t, open_tag(), 0);
                    assert forall|k: int| !matches_at(sanitized(s), k, open_tag()) by {
                        if 0 <= k {
                            assert(!matches_at(t, k, open_tag()));
                        }
                    }
                },
                Some(j) => {
                    let t = s.take(i as int) + s.skip((j + 9) as int);
                    assert(sanitized(s) == sanitized(t));
                    law_sanitized_has_no_script_tag(t);
                },
            }
        },
    }
}

/// Content that holds no `<script` (in any ASCII case) is left as it is.
pub proof fn law_clean_content_unchanged(s: Seq<char>)
    requires
        forall|i: int| !matches_at(s, i, open_tag()),
    ensures
        sanitized(s) == s,
{
    lemma_find_from(s, open_tag(), 0);
}

/// Sanitizing twice gives the same content as sanitizing once.
pub proof fn law_sanitize_idempotent(s: Seq<char>)
    ensures
        sanitized(sanitized(s)) == sanitized(s),
{
    law_sanitized_has_no_script_tag(s);
    law_clean_content_unchanged(sanitized(s));
}

/// Sanitizing only removes characters: the content never grows.
pub proof fn law_sanitize_never_grows(s: Seq<char>)
    ensures
        sanitized(s).len() <= s.len(),
    decreases s.len(),
{
    lemma_find_from(s, open_tag(), 0);
    match find_from(s, open_tag(), 0) {
        None => {},
        Some(i) => {
            lemma_find_from(s, close_tag(), i);
            match find_from(s, close_tag(), i) {
                None => {},
                Some(j) => {
                    law_sanitize_never_grows(s.take(i as int) + s.skip((j + 9) as int));
                },
            }
        },
    }
}

/// Removing one closed element keeps everything around it: when `a` holds no
/// `<script`, and `e` starts with `<script` and holds its first `</script>` at
/// its very end, then `a + e + b` sanitizes as `a + b` does, so nothing after
/// the closing tag (not even a line break) is lost; when `a + b` is clean, the
/// result is exactly `a + b`.
pub proof fn law_removal_keeps_the_rest(a: Seq<char>, e: Seq<char>, b: Seq<char>)
    requires
        forall|i: int| !matches_at(a, i, open_tag()),
        matches_at(e, 0, open_tag()),
        e.len() >= 9,
        matches_at(e, e.len() - 9, close_tag()),
        forall|k: int| 0 <= k < e.len() - 9 ==> !matches_at(e, k, close_tag()),
    ensures
        sanitized(a + e + b) == sanitized(a + b),
        (forall|i: int| !matches_at(a + b, i, open_tag())) ==> sanitized(a + e + b) == a + b,
{
    let s = a + e + b;
    let n = a.len();
    // The first `<script` of `s` is the one that starts `e`.
    assert(matches_at(s, n as int, open_tag())) by {
        assert forall|m: int| 0 <= m < open_tag().len() implies folded_code(#[trigger] s[n + m])
            == open_tag()[m] as u32 by {
            assert(s[n + m] == e[0 + m]);
        }
    }
    assert forall|k: int| 0 <= k < n implies !matches_at(s, k, open_tag()) by {
        if matches_at(s, k, open_tag()) {
            if k + 7 <= n {
                assert forall|m: int| 0 <= m < open_tag().len() implies folded_code(#[trigger] a[k + m])
                    == open_tag()[m] as u32 by {
                    assert(s[k + m] == a[k + m]);
                }
                assert(matches_at(a, k, open_tag()));
            } else {
                let m = n - k;
                assert(s[k + m] == e[0int + 0int]);
                assert(folded_code(e[0int + 0int]) == open_tag()[0] as u32);
                assert(folded_code(s[k + m]) == open_tag()[m] as u32);
            }
        }
    }
    lemma_find_from(s, open_tag(), 0);
    assert(find_from(s, open_tag(), 0) == Some(n));
    // The first `</script>` from there is the one that ends `e`.
    let c = (n + e.len() - 9) as nat;
    assert(matches_at(s, c as int, close_tag())) by {
        assert forall|m: int| 0 <= m < close_tag().len() implies folded_code(#[trigger] s[c + m])
            == close_tag()[m] as u32 by {
            assert(s[c + m] == e[e.len() - 9 + m]);
        }
    }
    assert forall|k: int| n <= k < c implies !matches_at(s, k, close_tag()) by {
        if matches_at(s, k, close_tag()) {
            assert forall|m: int| 0 <= m < close_tag().len() implies folded_code(#[trigger] e[k - n + m])
                == close_tag()[m] as u32 by {
                assert(s[k + m] == e[k - n + m]);
            }
            assert(matches_at(e, k - n, close_tag()));
        }
    }
    lemma_find_from(s, close_tag(), n);
    assert(find_from(s, close_tag(), n) == Some(c));
    assert(s.take(n as int) + s.skip((c + 9) as int) =~= a + b);
    if forall|i: int| !matches_at(a + b, i, open_tag()) {
        law_clean_content_unchanged(a + b);
    }
}

/// An element left open is removed to the end, and only it: when `a` holds no
/// `<script`, and `e` starts with `<script` and holds no `</script>`, then
/// `a + e` sanitizes to `a`.
pub proof fn law_unclosed_removed_to_end(a: Seq<char>, e: Seq<char>)
    requires
        forall|i: int| !matches_at(a, i, open_tag()),
        matches_at(e, 0, open_tag()),
        forall|k: int| !matches_at(e, k, close_tag()),
    ensures
        sanitized(a + e) == a,
{
    let s = a + e;
    let n = a.len();
    assert(matches_at(s, n as int, open_tag())) by {
        assert forall|m: int| 0 <= m < open_tag().len() implies folded_code(#[trigger] s[n + m])
            == open_tag()[m] as u32 by {
            assert(s[n + m] == e[0 + m]);
        }
    }
    assert forall|k: int| 0 <= k < n implies !matches_at(s, k, open_tag()) by {
        if matches_at(s, k, open_tag()) {
            if k + 7 <= n {
                assert forall|m: int| 0 <= m < open_tag().len() implies folded_code(#[trigger] a[k + m])
                    == open_tag()[m] as u32 by {
                    assert(s[k + m] == a[k + m]);
                }
                assert(matches_at(a, k, open_tag()));
            } else {
                let m = n - k;
                assert(s[k + m] == e[0int + 0int]);
                assert(folded_code(e[0int + 0int]) == open_tag()[0] as u32);
                assert(folded_code(s[k + m]) == open_tag()[m] as u32);
            }
        }
    }
    lemma_find_from(s, open_tag(), 0);
    assert(find_from(s, open_tag(), 0) == Some(n));
    assert forall|k: int| n <= k implies !matches_at(s, k, close_tag()) by {
        if matches_at(s, k, close_tag()) {
            assert forall|m: int| 0 <= m < close_tag().len() implies folded_code(#[trigger] e[k - n + m])
                == close_tag()[m] as u32 by {
                assert(s[k + m] == e[k - n + m]);
            }
            assert(matches_at(e, k - n, close_tag()));
        }
    }
    lemma_find_from(s, close_tag(), n);
    assert(s.take(n as int) =~= a);
}

} // verus!
