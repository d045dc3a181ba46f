//! The time tags of the two track grammars, and whether the times that a
//! reader computes from them fit 64 bits of milliseconds.
//!
//! A reader of a track turns each tag into one number of milliseconds: in a
//! line-synced track minutes, seconds and a fraction are scaled and added
//! up; in a word-synced track a word's duration is added to its start. This
//! module finds exactly the tags that such a time is computed from and says
//! whether every one of these times is at most `u64::MAX`. Digits anywhere
//! else in a track are of no concern to it.
//!
//! All of it works on the bytes of the text. Every byte that delimits a tag
//! is ASCII, and an ASCII byte never lies inside a longer character.

use vstd::prelude::*;

verus! {

/// The grammar of a track.
#[derive(Debug, Clone, Copy, PartialEq, Eq)]
pub enum TrackGrammar {
    /// One time per line: `[minutes:seconds.fraction]` tags lead a line.
    LineSynced,
    /// One time per word: a line starts with `[start,duration]`, and each
    /// word with `(start,duration,0)`.
    WordSynced,
}

/// The byte is an ASCII decimal digit.
pub open spec fn is_digit(byte: u8) -> bool {
    0x30 <= byte <= 0x39
}

/// The first index in `from..end` at which `s` holds `a` or `b`, or `end`
/// where it holds neither.
pub open spec fn first_of(s: Seq<u8>, from: int, end: int, a: u8, b: u8) -> int
    decreases end - from,
{
    if from >= end {
        end
    } else if s[from] == a || s[from] == b {
        from
    } else {
        first_of(s, from + 1, end, a, b)
    }
}

/// The first index in `from..end` at which `s` holds no digit, or `end`
/// where it holds digits only.
pub open spec fn digits_end(s: Seq<u8>, from: int, end: int) -> int
    decreases end - from,
{
    if from >= end {
        end
    } else if !is_digit(s[from]) {
        from
    } else {
        digits_end(s, from + 1, end)
    }
}

/// [`first_of`] stays inside the range it searches.
pub proof fn lemma_first_of_bounds(s: Seq<u8>, from: int, end: int, a: u8, b: u8)
    requires
        from <= end,
    ensures
        from <= first_of(s, from, end, a, b) <= end,
    decreases end - from,
{
    if from < end && !(s[from] == a || s[from] == b) {
        lemma_first_of_bounds(s, from + 1, end, a, b);
    }
}

/// The number that the digits in `from..to` of `s` write, leading zeros
/// allowed.
pub open spec fn digits_value(s: Seq<u8>, from: int, to: int) -> nat
    decreases to - from,
{
    if to <= from {
        0
    } else {
        digits_value(s, from, to - 1) * 10 + (s[to - 1] - 0x30) as nat
    }
}

/// More digits never write a smaller number.
pub proof fn lemma_digits_value_grows(s: Seq<u8>, from: int, mid: int, to: int)
    requires
        from <= mid <= to,
        forall|i: int| from <= i < to ==> is_digit(#[trigger] s[i]),
    ensures
        digits_value(s, from, mid) <= digits_value(s, from, to),
    decreases to - mid,
{
    if mid < to {
        lemma_digits_value_grows(s, from, mid, to - 1);
        assert(is_digit(s[to - 1]));
    }
}

/// The number that the field in `from..to` of `s` is read as, where it is
/// read as one: an optional plus sign, then one digit or more, writing a
/// number of at most `u64::MAX`.
pub open spec fn number_in(s: Seq<u8>, from: int, to: int) -> Option<nat> {
    let start = if from < to && s[from] == 0x2b {
        from + 1
    } else {
        from
    };
    if start < to && (forall|i: int| start <= i < to ==> is_digit(#[trigger] s[i]))
        && digits_value(s, start, to) <= u64::MAX {
        Some(digits_value(s, start, to))
    } else {
        None
    }
}

/// A tag that a time is computed from.
pub ghost struct TimeTag {
    /// The time, in milliseconds, as the number that the arithmetic means.
    pub total: nat,
    /// The index after the last byte that was read of the tag.
    pub next: int,
}

/// The thousandths that the one to three digits in `from..to` write as a
/// decimal fraction.
pub open spec fn fraction_ms(s: Seq<u8>, from: int, to: int) -> nat {
    if to - from == 1 {
        ((s[from] - 0x30) * 100) as nat
    } else if to - from == 2 {
        ((s[from] - 0x30) * 100 + (s[from + 1] - 0x30) * 10) as nat
    } else {
        ((s[from] - 0x30) * 100 + (s[from + 1] - 0x30) * 10 + (s[from + 2] - 0x30)) as nat
    }
}

/// The index up to which the fraction of a line-synced tag is read: the
/// digits from `from` on, three at most.
pub open spec fn fraction_end(s: Seq<u8>, from: int, end: int) -> int {
    let digits = digits_end(s, from, end);
    if digits > from + 3 {
        from + 3
    } else {
        digits
    }
}

/// The time tag of the line-synced grammar at `p` in a line that ends at
/// `end`, where a time is computed there.
///
/// That is the case where `[` stands at `p`, a number follows up to the
/// first colon, a second number up to the next colon or full stop, and at
/// least one digit after that. The time is computed before the closing
/// bracket is looked for.
pub open spec fn lrc_tag(s: Seq<u8>, p: int, end: int) -> Option<TimeTag> {
    if !(p < end && s[p] == 0x5b) {
        None
    } else {
        let q = first_of(s, p + 1, end, 0x3a, 0x3a);
        let r = first_of(s, q + 1, end, 0x3a, 0x2e);
        let f = fraction_end(s, r + 1, end);
        if q <= p + 1 || q >= end || r <= q + 1 || r >= end || f <= r + 1 {
            None
        } else {
            match (number_in(s, p + 1, q), number_in(s, q + 1, r)) {
                (Some(minutes), Some(seconds)) => Some(
                    TimeTag {
                        total: minutes * 60000 + seconds * 1000 + fraction_ms(s, r + 1, f),
                        next: f,
                    },
                ),
                _ => None,
            }
        }
    }
}

/// Every time that the line-synced grammar computes from the tags that
/// lead the line, from `p` on, is at most `u64::MAX`. A tag is followed by
/// the next one where it is closed by `]`.
pub open spec fn lrc_tags_fit(s: Seq<u8>, p: int, end: int) -> bool
    decreases end - p,
{
    match lrc_tag(s, p, end) {
        None => true,
        Some(tag) => tag.total <= u64::MAX && (tag.next < end && s[tag.next] == 0x5d
            ==> lrc_tags_fit(s, tag.next + 1, end)),
    }
}

/// The index after the tag `[digits,digits]` that opens a line of the
/// word-synced grammar at `p`, where the line opens with one and both of its
/// numbers are at most `u64::MAX`. Without it the line has no words.
pub open spec fn yrc_head_end(s: Seq<u8>, p: int, end: int) -> Option<int> {
    if !(p < end && s[p] == 0x5b) {
        None
    } else {
        let a = digits_end(s, p + 1, end);
        let b = digits_end(s, a + 1, end);
        if a <= p + 1 || a >= end || s[a] != 0x2c || b <= a + 1 || b >= end || s[b] != 0x5d {
            None
        } else if digits_value(s, p + 1, a) > u64::MAX || digits_value(s, a + 1, b) > u64::MAX {
            None
        } else {
            Some(b + 1)
        }
    }
}

/// The word tag `(start,duration,0)` of the word-synced grammar at `p`,
/// where one stands there, inside words that end at `end`.
pub open spec fn yrc_word_tag(s: Seq<u8>, p: int, end: int) -> Option<TimeTag> {
    if !(p < end && s[p] == 0x28) {
        None
    } else {
        let q = first_of(s, p + 1, end, 0x2c, 0x2c);
        let r = first_of(s, q + 1, end, 0x2c, 0x2c);
        if q <= p + 1 || q >= end || r <= q + 1 || r + 3 > end || s[r + 1] != 0x30 || s[r + 2]
            != 0x29 {
            None
        } else {
            match (number_in(s, p + 1, q), number_in(s, q + 1, r)) {
                (Some(start), Some(duration)) => Some(
                    TimeTag { total: start + duration, next: r + 3 },
                ),
                _ => None,
            }
        }
    }
}

/// Every time that the word-synced grammar computes from the word tags
/// from `p` on is at most `u64::MAX`. The text of a word runs up to the
/// next `(`, where the next tag is looked for.
pub open spec fn yrc_words_fit(s: Seq<u8>, p: int, end: int) -> bool
    decreases end - p,
{
    match yrc_word_tag(s, p, end) {
        None => true,
        Some(tag) => {
            proof {
                lemma_first_of_bounds(s, tag.next, end, 0x28, 0x28);
            }
            tag.total <= u64::MAX && yrc_words_fit(
                s,
                first_of(s, tag.next, end, 0x28, 0x28),
                end,
            )
        },
    }
}

/// Every time that the word-synced grammar computes from the line in
/// `start..end` is at most `u64::MAX`. The words of a line are read up to
/// its first carriage return.
pub open spec fn yrc_line_fits(s: Seq<u8>, start: int, end: int) -> bool {
    match yrc_head_end(s, start, end) {
        None => true,
        Some(head) => yrc_words_fit(s, head, first_of(s, head, end, 0x0d, 0x0d)),
    }
}

/// Every time that the grammar computes from the line in `start..end` is
/// at most `u64::MAX`.
pub open spec fn line_fits(grammar: TrackGrammar, s: Seq<u8>, start: int, end: int) -> bool {
    match grammar {
        TrackGrammar::LineSynced => lrc_tags_fit(s, start, end),
        TrackGrammar::WordSynced => yrc_line_fits(s, start, end),
    }
}

/// Every time that the grammar computes from the lines of `s` from `start`
/// on is at most `u64::MAX`. Lines end at line feeds.
pub open spec fn lines_fit(grammar: TrackGrammar, s: Seq<u8>, start: int) -> bool
    decreases s.len() - start,
{
    if start >= s.len() {
        true
    } else {
        let end = first_of(s, start, s.len() as int, 0x0a, 0x0a);
        proof {
            lemma_first_of_bounds(s, start, s.len() as int, 0x0a, 0x0a);
        }
        line_fits(grammar, s, start, end) && (end < s.len() ==> lines_fit(grammar, s, end + 1))
    }
}

/// A text in which no `[` stands has no time tag, so its times fit, whatever
/// digits it holds.
pub proof fn lemma_text_without_bracket_fits(grammar: TrackGrammar, s: Seq<u8>, start: int)
    requires
        0 <= start,
        forall|i: int| 0 <= i < s.len() ==> #[trigger] s[i] != 0x5b,
    ensures
        lines_fit(grammar, s, start),
    decreases s.len() - start,
{
    if start < s.len() {
        let end = first_of(s, start, s.len() as int, 0x0a, 0x0a);
        lemma_first_of_bounds(s, start, s.len() as int, 0x0a, 0x0a);
        assert(s[start] != 0x5b);
        if end < s.len() {
            lemma_text_without_bracket_fits(grammar, s, end + 1);
        }
    }
}

fn find_first(bytes: &[u8], from: usize, end: usize, a: u8, b: u8) -> (at: usize)
    requires
        from <= end <= bytes@.len(),
    ensures
        at == first_of(bytes@, from as int, end as int, a, b),
        from <= at <= end,
{
    let mut i: usize = from;
    while i < end
        invariant
            from <= i <= end <= bytes@.len(),
            first_of(bytes@, from as int, end as int, a, b) == first_of(
                bytes@,
                i as int,
                end as int,
                a,
                b,
            ),
        decreases end - i,
    {
        if bytes[i] == a || bytes[i] == b {
            return i;
        }
        i += 1;
    }
    i
}

fn find_digits_end(bytes: &[u8], from: usize, end: usize) -> (at: usize)
    requires
        from <= end <= bytes@.len(),
    ensures
        at == digits_end(bytes@, from as int, end as int),
        from <= at <= end,
        forall|i: int| from <= i < at ==> is_digit(#[trigger] bytes@[i]),
{
    let mut i: usize = from;
    while i < end
        invariant
            from <= i <= end <= bytes@.len(),
            digits_end(bytes@, from as int, end as int) == digits_end(
                bytes@,
                i as int,
                end as int,
            ),
            forall|k: int| from <= k < i ==> is_digit(#[trigger] bytes@[k]),
        decreases end - i,
    {
        if !(0x30 <= bytes[i] && bytes[i] <= 0x39) {
            return i;
        }
        i += 1;
    }
    i
}

fn read_number(bytes: &[u8], from: usize, to: usize) -> (number: Option<u64>)
    requires
        from <= to <= bytes@.len(),
    ensures
        match number {
            Some(n) => number_in(bytes@, from as int, to as int) == Some(n as nat),
            None => number_in(bytes@, from as int, to as int) is None,
        },
{
    let start: usize = if from < to && bytes[from] == 0x2b {
        from + 1
    } else {
        from
    };
    if start >= to {
        return None;
    }
    let digits = find_digits_end(bytes, start, to);
    if digits < to {
        assert(!is_digit(bytes@[digits as int])) by {
            lemma_digits_end_stops(bytes@, start as int, to as int);
        }
        return None;
    }
    let mut value: u64 = 0;
    let mut i: usize = start;
    while i < to
        invariant
            start <= i <= to <= bytes@.len(),
            start == if from < to && bytes@[from as int] == 0x2b {
                from + 1
            } else {
                from as int
            },
            forall|k: int| start <= k < to ==> is_digit(#[trigger] bytes@[k]),
            value == digits_value(bytes@, start as int, i as int),
        decreases to - i,
    {
        let digit: u64 = (bytes[i] - 0x30) as u64;
        if value > (u64::MAX - digit) / 10 {
            proof {
                assert(value * 10 + digit > u64::MAX);
                assert(digits_value(bytes@, start as int, i + 1) == value * 10 + digit);
                lemma_digits_value_grows(bytes@, start as int, i + 1, to as int);
            }
            return None;
        }
        value = value * 10 + digit;
        i += 1;
    }
    Some(value)
}

/// Where [`digits_end`] stops before the end, no digit stands.
pub proof fn lemma_digits_end_stops(s: Seq<u8>, from: int, end: int)
    requires
        from <= end,
    ensures
        from <= digits_end(s, from, end) <= end,
        digits_end(s, from, end) < end ==> !is_digit(s[digits_end(s, from, end)]),
    decreases end - from,
{
    if from < end && is_digit(s[from]) {
        lemma_digits_end_stops(s, from + 1, end);
    }
}

fn lrc_tag_at(bytes: &[u8], p: usize, end: usize) -> (tag: Option<(u128, usize)>)
    requires
        p <= end <= bytes@.len(),
    ensures
        match tag {
            Some((total, next)) => lrc_tag(bytes@, p as int, end as int) == Some(
                TimeTag { total: total as nat, next: next as int },
            ) && p < next <= end,
            None => lrc_tag(bytes@, p as int, end as int) is None,
        },
{
    if !(p < end && bytes[p] == 0x5b) {
        return None;
    }
    let q = find_first(bytes, p + 1, end, 0x3a, 0x3a);
    if q <= p + 1 || q >= end {
        return None;
    }
    let r = find_first(bytes, q + 1, end, 0x3a, 0x2e);
    if r <= q + 1 || r >= end {
        return None;
    }
    let digits = find_digits_end(bytes, r + 1, end);
    if digits <= r + 1 {
        return None;
    }
    let f: usize = if digits - r > 4 {
        r + 4
    } else {
        digits
    };
    let minutes = match read_number(bytes, p + 1, q) {
        Some(n) => n,
        None => {
            return None;
        },
    };
    let seconds = match read_number(bytes, q + 1, r) {
        Some(n) => n,
        None => {
            return None;
        },
    };
    let mut fraction: u128 = (bytes[r + 1] - 0x30) as u128 * 100;
    if f - r >= 3 {
        fraction = fraction + (bytes[r + 2] - 0x30) as u128 * 10;
    }
    if f - r >= 4 {
        fraction = fraction + (bytes[r + 3] - 0x30) as u128;
    }
    let total: u128 = minutes as u128 * 60000 + seconds as u128 * 1000 + fraction;
    Some((total, f))
}

fn lrc_line_fits(bytes: &[u8], start: usize, end: usize) -> (fit: bool)
    requires
        start <= end <= bytes@.len(),
    ensures
        fit == lrc_tags_fit(bytes@, start as int, end as int),
{
    let mut p: usize = start;
    loop
        invariant
            start <= p <= end <= bytes@.len(),
            lrc_tags_fit(bytes@, start as int, end as int) == lrc_tags_fit(
                bytes@,
                p as int,
                end as int,
            ),
        decreases end - p,
    {
        match lrc_tag_at(bytes, p, end) {
            None => {
                return true;
            },
            Some((total, next)) => {
                if total > u64::MAX as u128 {
                    return false;
                }
                if next < end && bytes[next] == 0x5d {
                    p = next + 1;
                } else {
                    return true;
                }
            },
        }
    }
}

fn yrc_head_at(bytes: &[u8], p: usize, end: usize) -> (head: Option<usize>)
    requires
        p <= end <= bytes@.len(),
    ensures
        match head {
            Some(h) => yrc_head_end(bytes@, p as int, end as int) == Some(h as int) && p < h
                <= end,
            None => yrc_head_end(bytes@, p as int, end as int) is None,
        },
{
    if !(p < end && bytes[p] == 0x5b) {
        return None;
    }
    let a = find_digits_end(bytes, p + 1, end);
    if a <= p + 1 || a >= end || bytes[a] != 0x2c {
        return None;
    }
    let b = find_digits_end(bytes, a + 1, end);
    if b <= a + 1 || b >= end || bytes[b] != 0x5d {
        return None;
    }
    if read_number(bytes, p + 1, a).is_none() {
        return None;
    }
    if read_number(bytes, a + 1, b).is_none() {
        return None;
    }
    Some(b + 1)
}

fn yrc_word_tag_at(bytes: &[u8], p: usize, end: usize) -> (tag: Option<(u128, usize)>)
    requires
        p <= end <= bytes@.len(),
    ensures
        match tag {
            Some((total, next)) => yrc_word_tag(bytes@, p as int, end as int) == Some(
                TimeTag { total: total as nat, next: next as int },
            ) && p < next <= end,
            None => yrc_word_tag(bytes@, p as int, end as int) is None,
        },
{
    if !(p < end && bytes[p] == 0x28) {
        return None;
    }
    let q = find_first(bytes, p + 1, end, 0x2c, 0x2c);
    if q <= p + 1 || q >= end {
        return None;
    }
    let r = find_first(bytes, q + 1, end, 0x2c, 0x2c);
    if r <= q + 1 || r >= end || end - r < 3 || bytes[r + 1] != 0x30 || bytes[r + 2] != 0x29 {
        return None;
    }
    let start = match read_number(bytes, p + 1, q) {
        Some(n) => n,
        None => {
            return None;
        },
    };
    let duration = match read_number(bytes, q + 1, r) {
        Some(n) => n,
        None => {
            return None;
        },
    };
    let total: u128 = start as u128 + duration as u128;
    Some((total, r + 3))
}

fn yrc_words_fit_at(bytes: &[u8], start: usize, end: usize) -> (fit: bool)
    requires
        start <= end <= bytes@.len(),
    ensures
        fit == yrc_words_fit(bytes@, start as int, end as int),
{
    let mut p: usize = start;
    loop
        invariant
            start <= p <= end <= bytes@.len(),
            yrc_words_fit(bytes@, start as int, end as int) == yrc_words_fit(
                bytes@,
                p as int,
                end as int,
            ),
        decreases end - p,
    {
        match yrc_word_tag_at(bytes, p, end) {
            None => {
                return true;
            },
            Some((total, next)) => {
                if total > u64::MAX as u128 {
                    return false;
                }
                p = find_first(bytes, next, end, 0x28, 0x28);
            },
        }
    }
}

fn yrc_line_fits_at(bytes: &[u8], start: usize, end: usize) -> (fit: bool)
    requires
        start <= end <= bytes@.len(),
    ensures
        fit == yrc_line_fits(bytes@, start as int, end as int),
{
    match yrc_head_at(bytes, start, end) {
        None => true,
        Some(head) => {
            let words_end = find_first(bytes, head, end, 0x0d, 0x0d);
            yrc_words_fit_at(bytes, head, words_end)
        },
    }
}

/// Whether every time that the grammar computes from the tags of a track is
/// at most `u64::MAX`.
pub fn check_time_tags(grammar: TrackGrammar, bytes: &[u8]) -> (fit: bool)
    ensures
        fit == lines_fit(grammar, bytes@, 0),
{
    let mut start: usize = 0;
    while start < bytes.len()
        invariant
            start <= bytes@.len(),
            lines_fit(grammar, bytes@, 0) == lines_fit(grammar, bytes@, start as int),
        decreases bytes@.len() - start,
    {
        let end = find_first(bytes, start, bytes.len(), 0x0a, 0x0a);
        let fit = match grammar {
            TrackGrammar::LineSynced => lrc_line_fits(bytes, start, end),
            TrackGrammar::WordSynced => yrc_line_fits_at(bytes, start, end),
        };
        if !fit {
            return false;
        }
        if end >= bytes.len() {
            return true;
        }
        start = end + 1;
    }
    true
}

} // verus!
