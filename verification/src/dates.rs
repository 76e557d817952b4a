//! Captions for capture timestamps: a month and year, or a range of them.
//!
//! A raw timestamp has the form `YYYY:MM:DD HH:MM:SS` or
//! `YYYY-MM-DD HH:MM:SS`. Anything that does not yield a month between 1 and
//! 12 is handed back unchanged.

use vstd::prelude::*;
use vstd::string::StringExecFns;
use crate::text::{
    chars_le, chars_of, extend_chars, lemma_lex_le_reflexive, lemma_lex_le_total,
    lemma_lex_le_transitive, lex_le, opt_texts, present, slice_of, string_of,
};

verus! {

/// The characters that part a raw timestamp into its components.
pub open spec fn is_date_separator(c: char) -> bool {
    c == '-' || c == ':' || c == ' '
}

/// The position of the first separator in `s`, or the length of `s` if it
/// holds none.
pub open spec fn first_separator(s: Seq<char>) -> int
    decreases s.len(),
{
    if s.len() == 0 {
        0
    } else if is_date_separator(s[0]) {
        0
    } else {
        1 + first_separator(s.skip(1))
    }
}

/// Whether `s` holds a separator, so that it has at least two components.
pub open spec fn has_two_components(s: Seq<char>) -> bool {
    first_separator(s) < s.len()
}

/// The first component: what stands before the first separator.
pub open spec fn year_text(s: Seq<char>) -> Seq<char> {
    s.take(first_separator(s))
}

/// The second component: what stands between the first separator and the
/// next one, or the end.
pub open spec fn month_text(s: Seq<char>) -> Seq<char> {
    let rest = s.skip(first_separator(s) + 1);
    rest.take(first_separator(rest))
}

/// Whether `c` is one of the digits `0` to `9`.
pub open spec fn is_digit(c: char) -> bool {
    '0' <= c <= '9'
}

/// The number that a run of decimal digits writes.
pub open spec fn decimal_value(digits: Seq<char>) -> nat
    decreases digits.len(),
{
    if digits.len() == 0 {
        0
    } else {
        decimal_value(digits.drop_last()) * 10 + (digits.last() as int - '0' as int) as nat
    }
}

/// Whether `digits` is one digit at least and digits only.
pub open spec fn is_number_text(digits: Seq<char>) -> bool {
    digits.len() > 0 && forall|i: int| 0 <= i < digits.len() ==> is_digit(#[trigger] digits[i])
}

/// The digits of a number text: the text itself, without a leading `+`.
pub open spec fn unsigned_digits(text: Seq<char>) -> Seq<char> {
    if text.len() > 0 && text[0] == '+' {
        text.skip(1)
    } else {
        text
    }
}

/// The month that `text` names: a number from 1 to 12 written in decimal
/// digits, with leading zeros and one leading `+` allowed. Any other text
/// names no month.
pub open spec fn month_number(text: Seq<char>) -> Option<int> {
    let digits = unsigned_digits(text);
    if is_number_text(digits) && 1 <= decimal_value(digits) <= 12 {
        Some(decimal_value(digits) as int)
    } else {
        None
    }
}

/// The English name of month `m`, for `m` from 1 to 12.
pub open spec fn month_name(m: int) -> Seq<char> {
    if m == 1 {
        "January"@
    } else if m == 2 {
        "February"@
    } else if m == 3 {
        "March"@
    } else if m == 4 {
        "April"@
    } else if m == 5 {
        "May"@
    } else if m == 6 {
        "June"@
    } else if m == 7 {
        "July"@
    } else if m == 8 {
        "August"@
    } else if m == 9 {
        "September"@
    } else if m == 10 {
        "October"@
    } else if m == 11 {
        "November"@
    } else {
        "December"@
    }
}

/// The caption of a raw timestamp: the month's name, a space and the year
/// text where the second component names a month, else the timestamp itself.
pub open spec fn year_month_caption(raw: Seq<char>) -> Seq<char> {
    if has_two_components(raw) && month_number(month_text(raw)) is Some {
        month_name(month_number(month_text(raw))->0) + seq![' '] + year_text(raw)
    } else {
        raw
    }
}

/// The position of the first separator at or after `from`, or the length of
/// `v` if none follows.
fn find_separator(v: &Vec<char>, from: usize) -> (end: usize)
    requires
        from <= v.len(),
    ensures
        end == from + first_separator(v@.skip(from as int)),
        from <= end <= v.len(),
{
    let mut i: usize = from;
    while i < v.len() && !(v[i] == '-' || v[i] == ':' || v[i] == ' ')
        invariant
            from <= i <= v.len(),
            first_separator(v@.skip(from as int)) == (i - from) + first_separator(
                v@.skip(i as int),
            ),
        decreases v.len() - i,
    {
        assert(v@.skip(i as int)[0] == v@[i as int]);
        assert(v@.skip(i as int).skip(1) == v@.skip(i + 1));
        i += 1;
    }
    proof {
        if i < v.len() {
            assert(v@.skip(i as int)[0] == v@[i as int]);
        }
    }
    i
}

/// The month that the characters of `v` from `from` up to `to` name, or 0
/// where they name none.
fn parse_month(v: &Vec<char>, from: usize, to: usize) -> (m: u32)
    requires
        from <= to <= v.len(),
    ensures
        m <= 12,
        match month_number(v@.subrange(from as int, to as int)) {
            Some(n) => m == n,
            None => m == 0,
        },
{
    let ghost text = v@.subrange(from as int, to as int);
    let start: usize = if from < to && v[from] == '+' {
        from + 1
    } else {
        from
    };
    let ghost digits = v@.subrange(start as int, to as int);
    assert(digits == unsigned_digits(text)) by {
        if from < to {
            assert(text[0] == v@[from as int]);
            assert(text.skip(1) =~= v@.subrange(from + 1, to as int));
        }
    }
    if start == to {
        return 0;
    }
    // The value read so far, held at 13 once it has passed 12.
    let mut acc: u32 = 0;
    let mut i: usize = start;
    assert(digits.take(0) == Seq::<char>::empty());
    while i < to
        invariant
            from <= start <= i <= to <= v.len(),
            digits == v@.subrange(start as int, to as int),
            digits == unsigned_digits(v@.subrange(from as int, to as int)),
            forall|k: int| 0 <= k < i - start ==> is_digit(#[trigger] digits[k]),
            acc <= 13,
            acc == if decimal_value(digits.take(i - start)) >= 13 {
                13
            } else {
                decimal_value(digits.take(i - start))
            },
        decreases to - i,
    {
        let c: char = v[i];
        assert(digits[i - start] == c);
        if !('0' <= c && c <= '9') {
            return 0;
        }
        let d: u32 = (c as u32) - ('0' as u32);
        assert(digits.take(i - start + 1).drop_last() == digits.take(i - start));
        assert(digits.take(i - start + 1).last() == c);
        let next: u32 = acc * 10 + d;
        acc = if next > 13 {
            13
        } else {
            next
        };
        i += 1;
    }
    assert(digits.take(to - start) == digits);
    if acc > 12 {
        0
    } else {
        acc
    }
}

/// The English name of month `m`.
fn month_name_of(m: u32) -> (name: &'static str)
    requires
        1 <= m <= 12,
    ensures
        name@ == month_name(m as int),
{
    match m {
        1 => "January",
        2 => "February",
        3 => "March",
        4 => "April",
        5 => "May",
        6 => "June",
        7 => "July",
        8 => "August",
        9 => "September",
        10 => "October",
        11 => "November",
        _ => "December",
    }
}

/// Turns a raw capture timestamp into a caption such as `June 2024`.
///
/// The timestamp is split at `-`, `:` and space. With two components or more,
/// the second of which names a month from 1 to 12, the caption is the month's
/// name, a space and the first component. Every other input comes back
/// unchanged.
pub fn format_year_month(datetime_str: &str) -> (caption: String)
    ensures
        caption@ == year_month_caption(datetime_str@),
{
    let v = chars_of(datetime_str);
    let year_end = find_separator(&v, 0);
    assert(v@.skip(0) == v@);
    if year_end == v.len() {
        return String::from_str(datetime_str);
    }
    let month_end = find_separator(&v, year_end + 1);
    assert(v@.skip(year_end + 1).take(month_end - (year_end + 1)) == v@.subrange(
        year_end + 1,
        month_end as int,
    ));
    let m = parse_month(&v, year_end + 1, month_end);
    if m == 0 {
        return String::from_str(datetime_str);
    }
    let mut out = chars_of(month_name_of(m));
    out.push(' ');
    let year = slice_of(&v, 0, year_end);
    extend_chars(&mut out, &year);
    string_of(&out)
}

/// The earliest of the timestamps: the least in lexicographic order.
pub open spec fn earliest(dates: Seq<Seq<char>>) -> Seq<char>
    recommends
        dates.len() > 0,
    decreases dates.len(),
{
    if dates.len() <= 1 {
        dates[0]
    } else if lex_le(earliest(dates.drop_last()), dates.last()) {
        earliest(dates.drop_last())
    } else {
        dates.last()
    }
}

/// The latest of the timestamps: the greatest in lexicographic order.
pub open spec fn latest(dates: Seq<Seq<char>>) -> Seq<char>
    recommends
        dates.len() > 0,
    decreases dates.len(),
{
    if dates.len() <= 1 {
        dates[0]
    } else if lex_le(dates.last(), latest(dates.drop_last())) {
        latest(dates.drop_last())
    } else {
        dates.last()
    }
}

/// What stands between the two captions of a range: an en dash with a space
/// on each side.
pub open spec fn range_separator() -> Seq<char> {
    seq![' ', '\u{2013}', ' ']
}

/// The caption of a set of raw timestamps: empty for none; else the caption of
/// the earliest, followed, where the latest has another caption, by the
/// separator and that caption.
pub open spec fn date_range_caption(dates: Seq<Seq<char>>) -> Seq<char> {
    if dates.len() == 0 {
        Seq::empty()
    } else {
        let first = year_month_caption(earliest(dates));
        let last = year_month_caption(latest(dates));
        if first == last {
            first
        } else {
            first + range_separator() + last
        }
    }
}

/// The earliest timestamp is one of the timestamps, and none comes before it.
pub proof fn lemma_earliest_is_least(dates: Seq<Seq<char>>)
    requires
        dates.len() > 0,
    ensures
        dates.contains(earliest(dates)),
        forall|i: int| 0 <= i < dates.len() ==> lex_le(earliest(dates), #[trigger] dates[i]),
    decreases dates.len(),
{
    if dates.len() == 1 {
        lemma_lex_le_reflexive(dates[0]);
        assert(dates[0] == earliest(dates));
    } else {
        let rest = dates.drop_last();
        lemma_earliest_is_least(rest);
        let k = choose|k: int| 0 <= k < rest.len() && rest[k] == earliest(rest);
        assert(dates[k] == earliest(rest));
        assert(dates[dates.len() - 1] == dates.last());
        assert forall|i: int| 0 <= i < dates.len() implies lex_le(
            earliest(dates),
            #[trigger] dates[i],
        ) by {
            if i < rest.len() {
                assert(rest[i] == dates[i]);
                if !lex_le(earliest(rest), dates.last()) {
                    lemma_lex_le_total(earliest(rest), dates.last());
                    lemma_lex_le_transitive(dates.last(), earliest(rest), dates[i]);
                }
            } else {
                lemma_lex_le_reflexive(dates.last());
            }
        }
    }
}

/// The latest timestamp is one of the timestamps, and none comes after it.
pub proof fn lemma_latest_is_greatest(dates: Seq<Seq<char>>)
    requires
        dates.len() > 0,
    ensures
        dates.contains(latest(dates)),
        forall|i: int| 0 <= i < dates.len() ==> lex_le(#[trigger] dates[i], latest(dates)),
    decreases dates.len(),
{
    if dates.len() == 1 {
        lemma_lex_le_reflexive(dates[0]);
        assert(dates[0] == latest(dates));
    } else {
        let rest = dates.drop_last();
        lemma_latest_is_greatest(rest);
        let k = choose|k: int| 0 <= k < rest.len() && rest[k] == latest(rest);
        assert(dates[k] == latest(rest));
        assert(dates[dates.len() - 1] == dates.last());
        assert forall|i: int| 0 <= i < dates.len() implies lex_le(
            #[trigger] dates[i],
            latest(dates),
        ) by {
            if i < rest.len() {
                assert(rest[i] == dates[i]);
                if !lex_le(dates.last(), latest(rest)) {
                    lemma_lex_le_total(dates.last(), latest(rest));
                    lemma_lex_le_transitive(dates[i], latest(rest), dates.last());
                }
            } else {
                lemma_lex_le_reflexive(dates.last());
            }
        }
    }
}

/// Captions a set of raw capture timestamps.
///
/// No timestamp gives the empty string. Otherwise the earliest and the latest
/// timestamp, by lexicographic order, are each captioned by
/// [`format_year_month`]; equal captions give that caption, different ones
/// give the two joined by an en dash between spaces.
pub fn format_date_range(dates: &[String]) -> (caption: String)
    ensures
        caption@ == date_range_caption(dates.deep_view()),
{
    if dates.len() == 0 {
        return String::new();
    }
    let ghost all = dates.deep_view();
    let mut first: usize = 0;
    let mut last: usize = 0;
    let mut first_chars = chars_of(dates[0].as_str());
    let mut last_chars = chars_of(dates[0].as_str());
    let mut i: usize = 1;
    assert(all.take(1).drop_last() =~= all.take(0));
    while i < dates.len()
        invariant
            1 <= i <= dates.len(),
            all == dates.deep_view(),
            first < i,
            last < i,
            first_chars@ == all[first as int],
            last_chars@ == all[last as int],
            all[first as int] == earliest(all.take(i as int)),
            all[last as int] == latest(all.take(i as int)),
        decreases dates.len() - i,
    {
        let current = chars_of(dates[i].as_str());
        assert(all.take(i + 1).drop_last() =~= all.take(i as int));
        assert(all.take(i + 1).last() == all[i as int]);
        if !chars_le(&first_chars, &current) {
            first = i;
            first_chars = chars_of(dates[i].as_str());
        }
        if !chars_le(&current, &last_chars) {
            last = i;
            last_chars = current;
        }
        i += 1;
    }
    assert(all.take(dates.len() as int) =~= all);
    let first_month = format_year_month(dates[first].as_str());
    let last_month = format_year_month(dates[last].as_str());
    if first_month == last_month {
        first_month
    } else {
        let mut out = chars_of(first_month.as_str());
        out.push(' ');
        out.push('\u{2013}');
        out.push(' ');
        let tail = chars_of(last_month.as_str());
        extend_chars(&mut out, &tail);
        assert(out@ =~= first_month@ + range_separator() + last_month@);
        string_of(&out)
    }
}

/// The timespan caption of an album from the capture timestamps of its
/// photos, one entry per photo, absent where the photo carries none: the
/// caption of the range of those that are present.
pub fn derive_timespan(dates: &[Option<String>]) -> (caption: String)
    ensures
        caption@ == date_range_caption(present(opt_texts(dates@))),
{
    let mut found: Vec<String> = Vec::new();
    let mut i: usize = 0;
    let ghost texts = opt_texts(dates@);
    assert(texts.take(0) =~= Seq::<Option<Seq<char>>>::empty());
    while i < dates.len()
        invariant
            i <= dates.len(),
            texts == opt_texts(dates@),
            found.deep_view() == present(texts.take(i as int)),
        decreases dates.len() - i,
    {
        assert(texts.take(i + 1).drop_last() =~= texts.take(i as int));
        assert(texts.take(i + 1).last() == texts[i as int]);
        let ghost before = found.deep_view();
        match &dates[i] {
            Some(date) => {
                found.push(date.clone());
                assert(found.deep_view() =~= before.push(date@));
            },
            None => {},
        }
        i += 1;
    }
    assert(texts.take(dates.len() as int) =~= texts);
    format_date_range(found.as_slice())
}

/// Every timestamp is either captioned as a month from January to December
/// followed by a space and its first component, or handed back unchanged.
pub proof fn lemma_year_month_is_total(raw: Seq<char>)
    ensures
        year_month_caption(raw) == raw || exists|m: int|
            1 <= m <= 12 && year_month_caption(raw) == month_name(m) + seq![' '] + year_text(raw),
{
    if has_two_components(raw) && month_number(month_text(raw)) is Some {
        let m = month_number(month_text(raw))->0;
        assert(1 <= m <= 12 && year_month_caption(raw) == month_name(m) + seq![' '] + year_text(
            raw,
        ));
    }
}

/// No timestamps give the empty caption.
pub proof fn lemma_date_range_of_none()
    ensures
        date_range_caption(Seq::empty()) == Seq::<char>::empty(),
{
}

/// One timestamp alone is captioned as `format_year_month` captions it.
pub proof fn lemma_date_range_of_one(date: Seq<char>)
    ensures
        date_range_caption(seq![date]) == year_month_caption(date),
{
    assert(seq![date][0] == date);
}

/// Timestamps that all have one and the same month caption give that caption,
/// not a range.
pub proof fn lemma_date_range_within_one_month(dates: Seq<Seq<char>>, caption: Seq<char>)
    requires
        dates.len() > 0,
        forall|i: int| 0 <= i < dates.len() ==> year_month_caption(#[trigger] dates[i]) == caption,
    ensures
        date_range_caption(dates) == caption,
{
    lemma_earliest_is_least(dates);
    lemma_latest_is_greatest(dates);
    let i = choose|i: int| 0 <= i < dates.len() && dates[i] == earliest(dates);
    let j = choose|j: int| 0 <= j < dates.len() && dates[j] == latest(dates);
    assert(year_month_caption(dates[i]) == caption);
    assert(year_month_caption(dates[j]) == caption);
}

/// Where the earliest and the latest timestamp have different month captions,
/// the result is the earliest's caption, the separator and the latest's
/// caption; the earliest and the latest are timestamps of the input that no
/// other comes before or after in lexicographic order.
pub proof fn lemma_date_range_across_months(dates: Seq<Seq<char>>)
    requires
        dates.len() > 0,
        year_month_caption(earliest(dates)) != year_month_caption(latest(dates)),
    ensures
        date_range_caption(dates) == year_month_caption(earliest(dates)) + range_separator()
            + year_month_caption(latest(dates)),
        dates.contains(earliest(dates)),
        dates.contains(latest(dates)),
        forall|i: int|
            0 <= i < dates.len() ==> lex_le(earliest(dates), #[trigger] dates[i]) && lex_le(
                dates[i],
                latest(dates),
            ),
{
    lemma_earliest_is_least(dates);
    lemma_latest_is_greatest(dates);
}

} // verus!
