use vstd::prelude::*;
use crate::number::{parse_milli, parse_u64, parsed_milli, parsed_u64};
use crate::sample::{milli_or_zero, number_or_zero, ProgressSample, SampleFacts};
use crate::text::{chars_of, has_prefix, has_substring, matches_at, occurs_at, rows, slice_chars, split, split_on, split_words, starts_with, string_of, trim, trimmed, words};

verus! {

/// True when `i` is the first position at which `pat` occurs in `s`.
pub open spec fn is_first_occurrence(s: Seq<char>, pat: Seq<char>, i: int) -> bool {
    occurs_at(s, pat, i) && forall|j: int| 0 <= j < i ==> !occurs_at(s, pat, j)
}

/// The first position at which `pat` occurs in `s`, where it occurs at all.
pub open spec fn first_occurrence(s: Seq<char>, pat: Seq<char>) -> int {
    choose|i: int| is_first_occurrence(s, pat, i)
}

/// Two first occurrences are the same position.
pub proof fn lemma_first_occurrence_unique(s: Seq<char>, pat: Seq<char>, a: int, b: int)
    requires
        is_first_occurrence(s, pat, a),
        is_first_occurrence(s, pat, b),
    ensures
        a == b,
{
}

/// The first word after the first occurrence of `key` in `line`; nothing
/// where the key does not occur, an empty text where no word follows it.
pub open spec fn word_after(line: Seq<char>, key: Seq<char>) -> Option<Seq<char>> {
    if has_substring(line, key) {
        let rest = words(line.skip(first_occurrence(line, key) + key.len()));
        if rest.len() > 0 {
            Some(rest[0])
        } else {
            Some(Seq::<char>::empty())
        }
    } else {
        None
    }
}

/// Finds the first position at which `pat` occurs in `s`.
pub fn find(s: &Vec<char>, pat: &Vec<char>) -> (r: Option<usize>)
    ensures
        r is Some <==> has_substring(s@, pat@),
        r is Some ==> is_first_occurrence(s@, pat@, r->0 as int),
{
    if pat.len() > s.len() {
        return None;
    }
    let last: usize = s.len() - pat.len();
    let mut i: usize = 0;
    while i < last
        invariant
            last == s.len() - pat.len(),
            i <= last,
            forall|j: int| 0 <= j < i ==> !occurs_at(s@, pat@, j),
        decreases last - i,
    {
        if matches_at(s, pat, i) {
            return Some(i);
        }
        i = i + 1;
    }
    if matches_at(s, pat, last) {
        Some(last)
    } else {
        None
    }
}

/// The view of an optional text.
pub open spec fn chars_view(v: Option<Vec<char>>) -> Option<Seq<char>> {
    match v {
        Some(c) => Some(c@),
        None => None,
    }
}

/// Reads the first word after the first occurrence of `key`.
pub fn value_after(line: &Vec<char>, key: &str) -> (r: Option<Vec<char>>)
    ensures
        chars_view(r) == word_after(line@, key@),
{
    let k = chars_of(key);
    match find(line, &k) {
        Some(i) => {
            proof {
                lemma_first_occurrence_unique(
                    line@,
                    key@,
                    i as int,
                    first_occurrence(line@, key@),
                );
            }
            let n: usize = line.len();
            let rest = slice_chars(line, i + k.len(), n);
            assert(rest@ =~= line@.skip(i + k.len()));
            let parts = split_words(&rest);
            if parts.len() > 0 {
                assert(rows(parts@)[0] == parts@[0]@);
                Some(slice_chars(&parts[0], 0, parts[0].len()))
            } else {
                Some(Vec::new())
            }
        },
        None => None,
    }
}

/// What a time of day text means in milliseconds: `H:M:S` or `M:S`, hours and
/// minutes whole numbers, seconds with an optional fraction. Any other text
/// means nothing.
pub open spec fn clock_millis(text: Seq<char>) -> Option<nat> {
    let parts = split_on(text, ':');
    if parts.len() == 3 && parsed_u64(parts[0]) is Some && parsed_u64(parts[1]) is Some
        && parsed_milli(parts[2]) is Some {
        Some(
            (parsed_u64(parts[0])->0 as nat) * 3_600_000 + (parsed_u64(parts[1])->0 as nat)
                * 60_000 + parsed_milli(parts[2])->0 as nat,
        )
    } else if parts.len() == 2 && parsed_u64(parts[0]) is Some && parsed_milli(parts[1]) is Some {
        Some((parsed_u64(parts[0])->0 as nat) * 60_000 + parsed_milli(parts[1])->0 as nat)
    } else {
        None
    }
}

/// A number of milliseconds as microseconds, cut off at the largest 64-bit number.
pub open spec fn micros_of(millis: Option<nat>) -> u64 {
    match millis {
        Some(m) => if m * 1000 > u64::MAX {
            u64::MAX
        } else {
            (m * 1000) as u64
        },
        None => 0,
    }
}

/// Reads a time of day text as milliseconds.
pub fn parse_clock(text: &Vec<char>) -> (r: Option<u128>)
    ensures
        match clock_millis(text@) {
            Some(m) => r == Some(m as u128),
            None => r is None,
        },
{
    let parts = split(text, ':');
    if parts.len() == 3 {
        assert(rows(parts@)[0] == parts@[0]@ && rows(parts@)[1] == parts@[1]@ && rows(parts@)[2]
            == parts@[2]@);
        match (parse_u64(&parts[0]), parse_u64(&parts[1]), parse_milli(&parts[2])) {
            (Some(h), Some(m), Some(s)) => Some(
                (h as u128) * 3_600_000u128 + (m as u128) * 60_000u128 + (s as u128),
            ),
            _ => None,
        }
    } else if parts.len() == 2 {
        assert(rows(parts@)[0] == parts@[0]@ && rows(parts@)[1] == parts@[1]@);
        match (parse_u64(&parts[0]), parse_milli(&parts[1])) {
            (Some(m), Some(s)) => Some((m as u128) * 60_000u128 + (s as u128)),
            _ => None,
        }
    } else {
        None
    }
}

fn to_micros(millis: Option<u128>) -> (r: u64)
    requires
        millis is Some ==> millis->0 <= 0xffff_ffff_ffff_ffff_ffff_ffff,
    ensures
        r == micros_of(
            match millis {
                Some(m) => Some(m as nat),
                None => None,
            },
        ),
{
    match millis {
        Some(m) => {
            let wide: u128 = m * 1000u128;
            if wide > u64::MAX as u128 {
                u64::MAX
            } else {
                wide as u64
            }
        },
        None => 0,
    }
}

/// A text, or the empty text where there is none.
pub open spec fn text_or_empty(v: Option<Seq<char>>) -> Seq<char> {
    match v {
        Some(t) => t,
        None => Seq::<char>::empty(),
    }
}

/// What a line of the diagnostic stream says of the progress. A line with
/// an output time is a progress line; its frame counter, rate, bitrate and
/// speed are read where they stand and count as zero or empty where they do
/// not. A line without an output time is no progress line.
pub open spec fn line_facts(line: Seq<char>) -> Option<SampleFacts> {
    if has_substring(line, "time="@) {
        Some(
            SampleFacts {
                frame: number_or_zero(text_or_empty(word_after(line, "frame="@))),
                fps_milli: milli_or_zero(text_or_empty(word_after(line, "fps="@))),
                bitrate: text_or_empty(word_after(line, "bitrate="@)),
                speed: text_or_empty(word_after(line, "speed="@)),
                out_time_micros: micros_of(clock_millis(word_after(line, "time="@)->0)),
                ended: false,
            },
        )
    } else {
        None
    }
}

/// The view of an optional sample.
pub open spec fn sample_view(s: Option<ProgressSample>) -> Option<SampleFacts> {
    match s {
        Some(s) => Some(s@),
        None => None,
    }
}

fn word_or_empty(line: &Vec<char>, key: &str) -> (r: Vec<char>)
    ensures
        r@ == text_or_empty(word_after(line@, key@)),
{
    match value_after(line, key) {
        Some(v) => v,
        None => Vec::new(),
    }
}

/// Reads one line of the tool's diagnostic stream. Lines that are no
/// progress lines give `None`; they are noise, never an error.
pub fn parse_progress_line(line: &str) -> (r: Option<ProgressSample>)
    ensures
        sample_view(r) == line_facts(line@),
{
    let chars = chars_of(line);
    match value_after(&chars, "time=") {
        Some(time) => {
            let frame: u64 = match parse_u64(&word_or_empty(&chars, "frame=")) {
                Some(n) => n,
                None => 0,
            };
            let fps_milli: u64 = match parse_milli(&word_or_empty(&chars, "fps=")) {
                Some(n) => n,
                None => 0,
            };
            let bitrate = string_of(&word_or_empty(&chars, "bitrate="));
            let speed = string_of(&word_or_empty(&chars, "speed="));
            let out_time_micros = to_micros(parse_clock(&time));
            Some(ProgressSample { frame, fps_milli, bitrate, speed, out_time_micros, ended: false })
        },
        None => None,
    }
}

/// What a line of the diagnostic stream says of the total duration, in
/// milliseconds: the line begins, after blank space, with `Duration:`, and
/// the word that follows, without a comma at its end, is a time of day.
pub open spec fn duration_in_line(line: Seq<char>) -> Option<nat> {
    let body = trimmed(line);
    if has_prefix(body, "Duration:"@) {
        let word = text_or_empty(word_after(body, "Duration:"@));
        if word.len() > 0 && word.last() == ',' {
            clock_millis(word.drop_last())
        } else {
            clock_millis(word)
        }
    } else {
        None
    }
}

/// Reads the total duration from a line of the diagnostic stream.
pub fn parse_duration_line(line: &str) -> (r: Option<u128>)
    ensures
        match duration_in_line(line@) {
            Some(m) => r == Some(m as u128),
            None => r is None,
        },
{
    let body = trim(&chars_of(line));
    if !starts_with(&body, &chars_of("Duration:")) {
        return None;
    }
    let word = word_or_empty(&body, "Duration:");
    if word.len() > 0 && word[word.len() - 1] == ',' {
        let cut = slice_chars(&word, 0, word.len() - 1);
        assert(cut@ =~= word@.drop_last());
        parse_clock(&cut)
    } else {
        parse_clock(&word)
    }
}

} // verus!
