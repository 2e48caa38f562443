//! Caching core of a music quiz: the catalogue's data model, the rate limit on
//! outbound catalogue requests, single-flight loading and the cache refresh.

pub mod db;
pub mod deezer;
pub mod limiter;
pub mod loading;
pub mod quiz;
pub mod refresh;
pub mod routing;
pub mod state;
pub mod time;

use crate::time::{
    span_of, TimeDelta, SECONDS_PER_DAY, SECONDS_PER_HOUR, SECONDS_PER_MINUTE,
};
use vstd::prelude::*;

verus! {

/// What the quiz is started with.
pub struct Config {
    pub database_url: String,
    pub cache_duration: TimeDelta,
    pub bind_address: String,
}

/// The characters that separate the parts of a duration: those with the
/// Unicode property `White_Space`.
pub open spec fn is_whitespace(c: char) -> bool {
    let u = c as u32;
    ||| 0x09 <= u <= 0x0d
    ||| u == 0x20
    ||| u == 0x85
    ||| u == 0xa0
    ||| u == 0x1680
    ||| 0x2000 <= u <= 0x200a
    ||| u == 0x2028
    ||| u == 0x2029
    ||| u == 0x202f
    ||| u == 0x205f
    ||| u == 0x3000
}

/// The ten decimal digits of ASCII.
pub open spec fn is_digit(c: char) -> bool {
    0x30 <= c as u32 <= 0x39
}

/// Whether `s` holds decimal digits only.
pub open spec fn all_digits(s: Seq<char>) -> bool {
    forall|i: int| 0 <= i < s.len() ==> is_digit(#[trigger] s[i])
}

/// The number that a run of decimal digits writes.
pub open spec fn digits_value(s: Seq<char>) -> int
    decreases s.len(),
{
    if s.len() == 0 {
        0
    } else {
        10 * digits_value(s.drop_last()) + (s.last() as u32 - 0x30)
    }
}

/// The integer that `s` writes: an optional sign, `+` or `-`, then one
/// decimal digit or more, with a value that an `i64` holds.
pub open spec fn integer_of(s: Seq<char>) -> Option<i64> {
    let signed = s.len() > 0 && (s[0] == '-' || s[0] == '+');
    let digits = if signed {
        s.skip(1)
    } else {
        s
    };
    let value = if signed && s[0] == '-' {
        -digits_value(digits)
    } else {
        digits_value(digits)
    };
    if digits.len() > 0 && all_digits(digits) && i64::MIN <= value <= i64::MAX {
        Some(value as i64)
    } else {
        None
    }
}

/// The seconds in the unit that a letter names.
pub open spec fn unit_seconds(c: char) -> Option<i64> {
    if c == 's' {
        Some(1i64)
    } else if c == 'm' {
        Some(SECONDS_PER_MINUTE)
    } else if c == 'h' {
        Some(SECONDS_PER_HOUR)
    } else if c == 'd' {
        Some(SECONDS_PER_DAY)
    } else {
        None
    }
}

/// The seconds that one part of a duration stands for: an integer and the
/// letter of its unit, as in `12h`.
pub open spec fn component_of(word: Seq<char>) -> Option<i64> {
    if word.len() == 0 {
        None
    } else {
        match (integer_of(word.drop_last()), unit_seconds(word.last())) {
            (Some(n), Some(unit)) => span_of(n * unit),
            _ => None,
        }
    }
}

/// The parts of `s` between its white space, from left to right.
pub open spec fn words(s: Seq<char>) -> Seq<Seq<char>>
    decreases s.len(),
{
    if s.len() == 0 {
        Seq::empty()
    } else {
        let before = words(s.drop_last());
        if is_whitespace(s.last()) {
            before
        } else if s.len() >= 2 && !is_whitespace(s[s.len() - 2]) {
            before.drop_last().push(before.last().push(s.last()))
        } else {
            before.push(seq![s.last()])
        }
    }
}

/// The sum of the parts in seconds, where each part reads and every sum on
/// the way, from the left, is within the bounds of a `TimeDelta`.
pub open spec fn sum_components(parts: Seq<Seq<char>>) -> Option<i64>
    decreases parts.len(),
{
    if parts.len() == 0 {
        Some(0i64)
    } else {
        match (sum_components(parts.drop_last()), component_of(parts.last())) {
            (Some(sum), Some(seconds)) => span_of(sum + seconds),
            _ => None,
        }
    }
}

/// The seconds that a text such as `1d 2h 3m 2s` stands for.
pub open spec fn timedelta_of(s: Seq<char>) -> Option<i64> {
    sum_components(words(s))
}

fn char_is_whitespace(c: char) -> (r: bool)
    ensures
        r == is_whitespace(c),
{
    let u: u32 = c as u32;
    (0x09 <= u && u <= 0x0d) || u == 0x20 || u == 0x85 || u == 0xa0 || u == 0x1680 || (0x2000 <= u
        && u <= 0x200a) || u == 0x2028 || u == 0x2029 || u == 0x202f || u == 0x205f || u == 0x3000
}

fn chars_of(s: &str) -> (r: Vec<char>)
    ensures
        r@ == s@,
{
    let mut out: Vec<char> = Vec::new();
    for c in it: s.chars()
        invariant
            it.seq() == s@,
            out@ == it.seq().take(it.index()),
    {
        out.push(c);
    }
    out
}

proof fn lemma_digits_value_grows(s: Seq<char>)
    requires
        s.len() > 0,
        all_digits(s),
    ensures
        0 <= digits_value(s.drop_last()) <= digits_value(s),
    decreases s.len(),
{
    if s.len() > 1 {
        lemma_digits_value_grows(s.drop_last());
    }
}

/// Reads the integer that `text[from..to]` writes.
fn parse_integer(text: &Vec<char>, from: usize, to: usize) -> (r: Option<i64>)
    requires
        from <= to <= text.len(),
    ensures
        r == integer_of(text@.subrange(from as int, to as int)),
{
    let ghost s = text@.subrange(from as int, to as int);
    let signed: bool = from < to && (text[from] == '-' || text[from] == '+');
    let negative: bool = signed && text[from] == '-';
    let start: usize = if signed {
        from + 1
    } else {
        from
    };
    let ghost digits = if signed {
        s.skip(1)
    } else {
        s
    };
    assert(digits == text@.subrange(start as int, to as int));
    if start == to {
        return None;
    }
    // 2^63: the magnitude of the least `i64`, past which nothing fits.
    let limit: i128 = 0x8000_0000_0000_0000i128;
    let mut magnitude: i128 = 0;
    let mut k: usize = start;
    while k < to
        invariant
            start <= k <= to <= text.len(),
            s == text@.subrange(from as int, to as int),
            signed == (s.len() > 0 && (s[0] == '-' || s[0] == '+')),
            digits == (if signed {
                s.skip(1)
            } else {
                s
            }),
            digits == text@.subrange(start as int, to as int),
            all_digits(digits.take(k - start)),
            0 <= magnitude <= limit + 1,
            limit == 0x8000_0000_0000_0000i128,
            magnitude <= limit ==> magnitude == digits_value(digits.take(k - start)),
            magnitude > limit ==> digits_value(digits.take(k - start)) > limit,
        decreases to - k,
    {
        let c: char = text[k];
        let u: u32 = c as u32;
        let ghost next = digits.take(k - start + 1);
        assert(next.drop_last() == digits.take(k - start));
        assert(next.last() == c);
        if u < 0x30 || u > 0x39 {
            assert(!is_digit(digits[k - start]));
            return None;
        }
        assert(all_digits(next)) by {
            assert forall|i: int| 0 <= i < next.len() implies is_digit(#[trigger] next[i]) by {
                if i < next.len() - 1 {
                    assert(next[i] == digits.take(k - start)[i]);
                }
            }
        }
        proof {
            lemma_digits_value_grows(next);
        }
        if magnitude <= limit {
            magnitude = magnitude * 10 + (u - 0x30) as i128;
            if magnitude > limit {
                magnitude = limit + 1;
            }
        }
        k += 1;
    }
    assert(digits.take(to - start) == digits);
    if magnitude > limit {
        return None;
    }
    if negative {
        Some((-magnitude) as i64)
    } else if magnitude == limit {
        None
    } else {
        Some(magnitude as i64)
    }
}

/// Reads one part of a duration, `text[from..to]`.
fn parse_component(text: &Vec<char>, from: usize, to: usize) -> (r: Option<TimeDelta>)
    requires
        from < to <= text.len(),
    ensures
        TimeDelta::from_span(component_of(text@.subrange(from as int, to as int)), r),
{
    let ghost word = text@.subrange(from as int, to as int);
    assert(word.drop_last() == text@.subrange(from as int, to - 1));
    assert(word.last() == text@[to - 1]);
    let number: Option<i64> = parse_integer(text, from, to - 1);
    let unit: char = text[to - 1];
    match number {
        None => None,
        Some(n) => {
            if unit == 's' {
                TimeDelta::try_seconds(n)
            } else if unit == 'm' {
                TimeDelta::try_minutes(n)
            } else if unit == 'h' {
                TimeDelta::try_hours(n)
            } else if unit == 'd' {
                TimeDelta::try_days(n)
            } else {
                None
            }
        },
    }
}

proof fn lemma_words_after_space(s: Seq<char>, i: int)
    requires
        0 <= i < s.len(),
        is_whitespace(s[i]),
    ensures
        words(s.take(i + 1)) == words(s.take(i)),
{
    assert(s.take(i + 1).drop_last() == s.take(i));
}

proof fn lemma_words_next_word(s: Seq<char>, i: int, j: int)
    requires
        0 <= i < j <= s.len(),
        i == 0 || is_whitespace(s[i - 1]),
        forall|k: int| i <= k < j ==> !is_whitespace(#[trigger] s[k]),
    ensures
        words(s.take(j)) == words(s.take(i)).push(s.subrange(i, j)),
    decreases j - i,
{
    let t = s.take(j);
    assert(t.drop_last() == s.take(j - 1));
    assert(t.last() == s[j - 1]);
    if j == i + 1 {
        assert(s.subrange(i, j) == seq![s[i]]);
        if i > 0 {
            assert(t[t.len() - 2] == s[i - 1]);
        }
    } else {
        lemma_words_next_word(s, i, j - 1);
        assert(t[t.len() - 2] == s[j - 2]);
        let before = words(s.take(j - 1));
        assert(before.drop_last() == words(s.take(i)));
        assert(before.last().push(s[j - 1]) == s.subrange(i, j));
    }
}

/// Parses a timedelta in the format "1d 2h 3m 2s": parts of an integer and
/// a unit (`s`, `m`, `h` or `d`), separated by white space, are added up.
/// There is no result where a part does not read, or where a part or a sum
/// is out of the bounds of a `TimeDelta`. The empty text is the empty span.
pub fn parse_timedelta(s: &str) -> (r: Option<TimeDelta>)
    ensures
        TimeDelta::from_span(timedelta_of(s@), r),
{
    let text: Vec<char> = chars_of(s);
    let n: usize = text.len();
    let mut total: Option<TimeDelta> = Some(TimeDelta::zero());
    let mut i: usize = 0;
    assert(text@.take(0) == Seq::<char>::empty());
    while i < n
        invariant
            n == text.len(),
            i <= n,
            i == 0 || i == n || is_whitespace(text@[i - 1]) || is_whitespace(text@[i as int]),
            TimeDelta::from_span(sum_components(words(text@.take(i as int))), total),
        decreases n - i,
    {
        if char_is_whitespace(text[i]) {
            proof {
                lemma_words_after_space(text@, i as int);
            }
            i += 1;
        } else {
            let mut j: usize = i + 1;
            while j < n && !char_is_whitespace(text[j])
                invariant
                    n == text.len(),
                    i < j <= n,
                    forall|k: int| i <= k < j ==> !is_whitespace(#[trigger] text@[k]),
                decreases n - j,
            {
                j += 1;
            }
            proof {
                lemma_words_next_word(text@, i as int, j as int);
                let parts = words(text@.take(j as int));
                assert(parts.drop_last() == words(text@.take(i as int)));
                assert(parts.last() == text@.subrange(i as int, j as int));
            }
            let part: Option<TimeDelta> = parse_component(&text, i, j);
            total =
            match (total, part) {
                (Some(sum), Some(seconds)) => sum.checked_add(&seconds),
                _ => None,
            };
            i = j;
        }
    }
    assert(text@.take(n as int) == text@);
    total
}

} // verus!
