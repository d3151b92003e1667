use vstd::prelude::*;
use crate::number::{parse_milli, parse_u64, parsed_milli, parsed_u64};
use crate::text::{chars_of, has_prefix, rows, same_text, slice_chars, split, split_on, starts_with, string_of, trim, trimmed};

verus! {

/// One reading of the tool's progress report.
#[derive(Clone, Debug)]
pub struct ProgressSample {
    /// Frames written so far.
    pub frame: u64,
    /// The rate that the tool reports, in thousandths of a frame per second.
    pub fps_milli: u64,
    /// The bitrate as the tool writes it.
    pub bitrate: String,
    /// The speed multiplier as the tool writes it.
    pub speed: String,
    /// Position in the output, in microseconds.
    pub out_time_micros: u64,
    /// True once the tool has reported the end of its work.
    pub ended: bool,
}

/// What a progress sample holds, as plain values.
pub struct SampleFacts {
    pub frame: u64,
    pub fps_milli: u64,
    pub bitrate: Seq<char>,
    pub speed: Seq<char>,
    pub out_time_micros: u64,
    pub ended: bool,
}

impl View for ProgressSample {
    type V = SampleFacts;

    open spec fn view(&self) -> SampleFacts {
        SampleFacts {
            frame: self.frame,
            fps_milli: self.fps_milli,
            bitrate: self.bitrate@,
            speed: self.speed@,
            out_time_micros: self.out_time_micros,
            ended: self.ended,
        }
    }
}

/// The sample before anything was read: zeros and empty texts.
pub open spec fn blank_facts() -> SampleFacts {
    SampleFacts {
        frame: 0,
        fps_milli: 0,
        bitrate: Seq::<char>::empty(),
        speed: Seq::<char>::empty(),
        out_time_micros: 0,
        ended: false,
    }
}

/// The value of a `key=value` line: what follows the key, without the blank
/// space around it.
pub open spec fn value_of(line: Seq<char>, key: Seq<char>) -> Seq<char> {
    trimmed(line.skip(key.len() as int))
}

/// A whole number, or zero where the text is none.
pub open spec fn number_or_zero(s: Seq<char>) -> u64 {
    match parsed_u64(s) {
        Some(n) => n,
        None => 0,
    }
}

/// A number of thousandths, or zero where the text is none.
pub open spec fn milli_or_zero(s: Seq<char>) -> u64 {
    match parsed_milli(s) {
        Some(n) => n,
        None => 0,
    }
}

/// The sample after one more line of the report. A line that begins with
/// none of the known keys changes nothing. The line `progress=end` says
/// that the tool has ended its work.
pub open spec fn apply_line(m: SampleFacts, line: Seq<char>) -> SampleFacts {
    if has_prefix(line, "frame="@) {
        SampleFacts { frame: number_or_zero(value_of(line, "frame="@)), ..m }
    } else if has_prefix(line, "fps="@) {
        SampleFacts { fps_milli: milli_or_zero(value_of(line, "fps="@)), ..m }
    } else if has_prefix(line, "bitrate="@) {
        SampleFacts { bitrate: value_of(line, "bitrate="@), ..m }
    } else if has_prefix(line, "speed="@) {
        SampleFacts { speed: value_of(line, "speed="@), ..m }
    } else if has_prefix(line, "out_time_ms="@) {
        SampleFacts { out_time_micros: number_or_zero(value_of(line, "out_time_ms="@)), ..m }
    } else if has_prefix(line, "progress="@) {
        SampleFacts { ended: value_of(line, "progress="@) == "end"@, ..m }
    } else {
        m
    }
}

/// The sample after all the lines, first to last: a later line overrides an
/// earlier one with the same key.
pub open spec fn apply_lines(m: SampleFacts, lines: Seq<Seq<char>>) -> SampleFacts
    decreases lines.len(),
{
    if lines.len() == 0 {
        m
    } else {
        apply_line(apply_lines(m, lines.drop_last()), lines.last())
    }
}

/// What a whole progress report says, read from scratch.
pub open spec fn report_facts(content: Seq<char>) -> SampleFacts {
    apply_lines(blank_facts(), split_on(content, '\n'))
}

/// A sample counts only when its frame counter is above zero: a report that
/// is still being written reads as zero frames.
pub open spec fn is_valid_sample(m: SampleFacts) -> bool {
    m.frame > 0
}

/// The value that follows `key` at the start of `line`, if the line begins with it.
fn keyed_value(line: &Vec<char>, key: &str) -> (r: Option<Vec<char>>)
    ensures
        match r {
            Some(v) => has_prefix(line@, key@) && v@ == value_of(line@, key@),
            None => !has_prefix(line@, key@),
        },
{
    let k = chars_of(key);
    if starts_with(line, &k) {
        let rest = slice_chars(line, k.len(), line.len());
        assert(rest@ =~= line@.skip(key@.len() as int));
        Some(trim(&rest))
    } else {
        None
    }
}

fn value_or_zero(v: &Vec<char>) -> (n: u64)
    ensures
        n == number_or_zero(v@),
{
    match parse_u64(v) {
        Some(n) => n,
        None => 0,
    }
}

fn thousandths_or_zero(v: &Vec<char>) -> (n: u64)
    ensures
        n == milli_or_zero(v@),
{
    match parse_milli(v) {
        Some(n) => n,
        None => 0,
    }
}

/// Reads a whole progress report, as the tool writes it into the sidecar
/// file: `key=value` lines, of which the last for each key counts.
pub fn parse_progress_report(content: &str) -> (sample: ProgressSample)
    ensures
        sample@ == report_facts(content@),
{
    let chars = chars_of(content);
    let lines = split(&chars, '\n');
    let mut frame: u64 = 0;
    let mut fps_milli: u64 = 0;
    let mut bitrate: Vec<char> = Vec::new();
    let mut speed: Vec<char> = Vec::new();
    let mut out_time_micros: u64 = 0;
    let mut ended: bool = false;
    let mut i: usize = 0;
    assert(rows(lines@).subrange(0, 0) =~= Seq::<Seq<char>>::empty());
    while i < lines.len()
        invariant
            i <= lines.len(),
            rows(lines@) == split_on(content@, '\n'),
            (SampleFacts {
                frame,
                fps_milli,
                bitrate: bitrate@,
                speed: speed@,
                out_time_micros,
                ended,
            }) == apply_lines(blank_facts(), rows(lines@).subrange(0, i as int)),
        decreases lines.len() - i,
    {
        let line = &lines[i];
        proof {
            let next = rows(lines@).subrange(0, i + 1);
            assert(next.drop_last() =~= rows(lines@).subrange(0, i as int));
            assert(next.last() == line@);
        }
        if let Some(v) = keyed_value(line, "frame=") {
            frame = value_or_zero(&v);
        } else if let Some(v) = keyed_value(line, "fps=") {
            fps_milli = thousandths_or_zero(&v);
        } else if let Some(v) = keyed_value(line, "bitrate=") {
            bitrate = v;
        } else if let Some(v) = keyed_value(line, "speed=") {
            speed = v;
        } else if let Some(v) = keyed_value(line, "out_time_ms=") {
            out_time_micros = value_or_zero(&v);
        } else if let Some(v) = keyed_value(line, "progress=") {
            ended = same_text(&v, &chars_of("end"));
        }
        i = i + 1;
    }
    assert(rows(lines@).subrange(0, lines.len() as int) =~= rows(lines@));
    ProgressSample {
        frame,
        fps_milli,
        bitrate: string_of(&bitrate),
        speed: string_of(&speed),
        out_time_micros,
        ended,
    }
}

} // verus!
