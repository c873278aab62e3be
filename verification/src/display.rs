//! The short creation date shown beside a note, such as `2024/3/7`.

use vstd::prelude::*;
use chrono::Datelike;
use crate::text::chars_of;
use crate::text::decimal;
use crate::text::decimal_value;
use crate::text::law_decimal_reads_back;
use crate::text::lemma_decimal_digits;
use crate::text::push_decimal;
use crate::text::push_signed_decimal;
use crate::text::signed_decimal;

verus! {

/// The year, month and day that `chrono::NaiveDateTime::parse_from_str(value, format)`
/// yields, or `None` when chrono refuses the text.
pub uninterp spec fn parsed_date_parts(value: Seq<char>, format: Seq<char>) -> Option<(i32, u32, u32)>;

/// Calls `chrono::NaiveDateTime::parse_from_str` and, on success, the date's
/// `year`, `month` and `day`.  The contract claims only that the outcome is a
/// function of the text and the format (named `parsed_date_parts`); how chrono
/// reads the format is not restated here.
#[verifier::external_body]
fn parse_date_parts(value: &str, format: &str) -> (r: Option<(i32, u32, u32)>)
    ensures
        r == parsed_date_parts(value@, format@),
{
    match chrono::NaiveDateTime::parse_from_str(value, format) {
        Ok(dt) => Some((dt.year(), dt.month(), dt.day())),
        Err(_) => None,
    }
}

/// The format in which notes store their timestamps.
pub open spec fn timestamp_format() -> Seq<char> {
    seq!['%', 'Y', '-', '%', 'm', '-', '%', 'd', 'T', '%', 'H', ':', '%', 'M', ':', '%', 'S']
}

/// Number of bytes that UTF-8 uses for `c`.
pub open spec fn utf8_width(c: char) -> nat {
    let u = c as u32;
    if u < 0x80 { 1 } else if u < 0x800 { 2 } else if u < 0x10000 { 3 } else { 4 }
}

/// Number of bytes that UTF-8 uses for `s`.
pub open spec fn utf8_size(s: Seq<char>) -> nat
    decreases s.len(),
{
    if s.len() == 0 { 0 } else { utf8_size(s.drop_last()) + utf8_width(s.last()) }
}

/// What `str::get(0..n)` gives: the leading characters that fill exactly `n`
/// bytes, or `None` when byte `n` is not a character boundary of the text.
pub open spec fn leading_bytes(s: Seq<char>, n: nat) -> Option<Seq<char>> {
    if exists|k: int| 0 <= k <= s.len() && #[trigger] utf8_size(s.take(k)) == n {
        Some(s.take(choose|k: int| 0 <= k <= s.len() && #[trigger] utf8_size(s.take(k)) == n))
    } else {
        None
    }
}

/// Every `-` replaced by `/`.
pub open spec fn dashes_to_slashes(s: Seq<char>) -> Seq<char> {
    s.map_values(|c: char| if c == '-' { '/' } else { c })
}

/// The displayed date: `year/month/day` without zero padding when the
/// timestamp was read, otherwise its first ten bytes (or all of it when that
/// cut falls inside a character) with dashes turned into slashes.
pub open spec fn display_of(value: Seq<char>, parts: Option<(i32, u32, u32)>) -> Seq<char> {
    match parts {
        Some((y, m, d)) => signed_decimal(y as int) + seq!['/'] + decimal(m as nat) + seq!['/']
            + decimal(d as nat),
        None => dashes_to_slashes(
            match leading_bytes(value, 10) {
                Some(p) => p,
                None => value,
            },
        ),
    }
}

proof fn lemma_utf8_size_grows(s: Seq<char>, a: int, b: int)
    requires
        0 <= a < b <= s.len(),
    ensures
        utf8_size(s.take(a)) < utf8_size(s.take(b)),
    decreases b - a,
{
    assert(s.take(b).drop_last() =~= s.take(b - 1));
    if a < b - 1 {
        lemma_utf8_size_grows(s, a, b - 1);
    }
}

fn utf8_width_of(c: char) -> (w: usize)
    ensures
        w == utf8_width(c),
{
    let u = c as u32;
    if u < 0x80 { 1 } else if u < 0x800 { 2 } else if u < 0x10000 { 3 } else { 4 }
}

/// Builds the displayed date from the text and what the timestamp parser
/// returned for it.
pub fn display_from_parts(value: &str, parts: Option<(i32, u32, u32)>) -> (r: String)
    ensures
        r@ == display_of(value@, parts),
{
    match parts {
        Some((y, m, d)) => {
            let mut out = String::new();
            push_signed_decimal(&mut out, y as i64);
            out.push('/');
            push_decimal(&mut out, m as u128);
            out.push('/');
            push_decimal(&mut out, d as u128);
            assert(out@ =~= display_of(value@, parts));
            out
        },
        None => {
            let v = chars_of(value);
            let mut i: usize = 0;
            let mut size: usize = 0;
            while i < v.len() && size < 10
                invariant
                    i <= v.len(),
                    size == utf8_size(v@.take(i as int)),
                    size < 14,
                    i > 0 ==> utf8_size(v@.take(i - 1)) < 10,
                decreases v.len() - i,
            {
                assert(v@.take(i + 1).drop_last() =~= v@.take(i as int));
                size = size + utf8_width_of(v[i]);
                i += 1;
            }
            let end: usize = if size == 10 { i } else { v.len() };
            proof {
                let s = value@;
                if size == 10 {
                    assert(utf8_size(s.take(i as int)) == 10);
                    assert forall|k: int| 0 <= k <= s.len() && #[trigger] utf8_size(s.take(k)) == 10 implies k == i by {
                        if k < i {
                            lemma_utf8_size_grows(s, k, i as int);
                        } else if k > i {
                            lemma_utf8_size_grows(s, i as int, k);
                        }
                    }
                    assert(leading_bytes(s, 10) == Some(s.take(i as int)));
                } else {
                    assert forall|k: int| 0 <= k <= s.len() implies #[trigger] utf8_size(s.take(k)) != 10 by {
                        if k < i - 1 {
                            lemma_utf8_size_grows(s, k, i - 1);
                        } else if k > i {
                            lemma_utf8_size_grows(s, i as int, k);
                        }
                    }
                    assert(leading_bytes(s, 10) is None);
                }
            }
            let mut out = String::new();
            let mut k: usize = 0;
            while k < end
                invariant
                    k <= end <= v.len(),
                    out@ == dashes_to_slashes(v@.take(end as int)).take(k as int),
                decreases end - k,
            {
                let c = v[k];
                if c == '-' {
                    out.push('/');
                } else {
                    out.push(c);
                }
                assert(dashes_to_slashes(v@.take(end as int)).take(k + 1) =~= dashes_to_slashes(
                    v@.take(end as int),
                ).take(k as int).push(if c == '-' { '/' } else { c }));
                k += 1;
            }
            assert(v@.take(v.len() as int) =~= v@);
            assert(dashes_to_slashes(v@.take(end as int)).take(end as int) =~= dashes_to_slashes(
                v@.take(end as int),
            ));
            out
        },
    }
}

/// The date shown for a note created at `value`: the parsed `year/month/day`
/// when the timestamp reads as `%Y-%m-%dT%H:%M:%S`, else the fallback of
/// `display_of`.
pub fn created_display(value: &str) -> (r: String)
    ensures
        r@ == display_of(value@, parsed_date_parts(value@, timestamp_format())),
{
    let format = "%Y-%m-%dT%H:%M:%S";
    proof {
        reveal_strlit("%Y-%m-%dT%H:%M:%S");
        assert(format@ =~= timestamp_format());
    }
    let parts = parse_date_parts(value, format);
    display_from_parts(value, parts)
}

/// A read date is shown as year, month and day in that order, for every year:
/// the display holds exactly two `/`; the text before the first reads back as
/// the year (after a `-` when it is negative), the text between them as the
/// month, and the text after the second as the day.
pub proof fn law_display_is_year_month_day(value: Seq<char>, y: i32, m: u32, d: u32)
    ensures
        ({
            let r = display_of(value, Some((y, m, d)));
            exists|i: int, j: int|
                #![trigger r[i], r[j]]
                0 < i < j < r.len() && r[i] == '/' && r[j] == '/' && (forall|k: int|
                    0 <= k < r.len() && k != i && k != j ==> #[trigger] r[k] != '/')
                    && decimal_value(r.subrange(i + 1, j)) == m && decimal_value(
                    r.subrange(j + 1, r.len() as int),
                ) == d && (y >= 0 ==> decimal_value(r.take(i)) == y) && (y < 0 ==> r[0] == '-'
                    && decimal_value(r.subrange(1, i)) == -y)
        }),
{
    let ys = signed_decimal(y as int);
    let ms = decimal(m as nat);
    let ds = decimal(d as nat);
    let r = display_of(value, Some((y, m, d)));
    assert(r == ys + seq!['/'] + ms + seq!['/'] + ds);
    let yn: nat = if y < 0 { (-y) as nat } else { y as nat };
    let yd = decimal(yn);
    lemma_decimal_digits(yn);
    lemma_decimal_digits(m as nat);
    lemma_decimal_digits(d as nat);
    law_decimal_reads_back(yn);
    law_decimal_reads_back(m as nat);
    law_decimal_reads_back(d as nat);
    let i = ys.len() as int;
    let j = i + 1 + ms.len();
    assert(ys.len() >= 1 && ms.len() >= 1 && ds.len() >= 1) by {
        assert(yd.len() > 0 ==> 48 <= (yd[0] as u32));
        assert(ms.len() > 0 ==> 48 <= (ms[0] as u32));
        assert(ds.len() > 0 ==> 48 <= (ds[0] as u32));
        reveal_with_fuel(decimal, 2);
    }
    assert(r.subrange(i + 1, j) =~= ms);
    assert(r.subrange(j + 1, r.len() as int) =~= ds);
    assert(r.take(i) =~= ys);
    if y < 0 {
        assert(ys == seq!['-'] + yd);
        assert(r.subrange(1, i) =~= yd);
        assert(r[0] == '-');
    } else {
        assert(ys == yd);
    }
    assert forall|k: int| 0 <= k < r.len() && k != i && k != j implies #[trigger] r[k] != '/' by {
        assert(('/' as u32) == 47);
        if k < i {
            if y < 0 {
                if k > 0 {
                    assert(r[k] == yd[k - 1]);
                    assert(48 <= (yd[k - 1] as u32));
                }
            } else {
                assert(r[k] == yd[k]);
                assert(48 <= (yd[k] as u32));
            }
        } else if k < j {
            assert(r[k] == ms[k - i - 1]);
            assert(48 <= (ms[k - i - 1] as u32));
        } else {
            assert(r[k] == ds[k - j - 1]);
            assert(48 <= (ds[k - j - 1] as u32));
        }
    }
    assert(r[i] == '/' && r[j] == '/');
}

} // verus!
