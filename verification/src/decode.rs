use vstd::prelude::*;
use crate::json::{
    flag, item, item_count, json_document, json_flag, json_items, json_member, json_number,
    json_text, member, number, parse_document, text,
};
use crate::text::{chars_of, slice_chars, string_of};
use crate::probe::{
    extract_metadata, is_metadata_of, probe_failure, FileInfo, FrameCount, ProbeError,
    ProbeOutput, ProbeReport, ProbeStream, VideoMetadata,
};

verus! {

/// The view of an optional string.
pub open spec fn opt_view(v: Option<String>) -> Option<Seq<char>> {
    match v {
        Some(s) => Some(s@),
        None => None,
    }
}

/// The member of a value that may be missing itself.
pub open spec fn member_of(v: Option<serde_json::Value>, key: Seq<char>) -> Option<
    serde_json::Value,
> {
    match v {
        Some(v) => json_member(v, key),
        None => None,
    }
}

/// The text of a value that may be missing.
pub open spec fn text_of(v: Option<serde_json::Value>) -> Option<Seq<char>> {
    match v {
        Some(v) => json_text(v),
        None => None,
    }
}

/// The number of a value that may be missing.
pub open spec fn number_of(v: Option<serde_json::Value>) -> Option<u64> {
    match v {
        Some(v) => json_number(v),
        None => None,
    }
}

/// The truth value of a value that may be missing.
pub open spec fn flag_of(v: Option<serde_json::Value>) -> Option<bool> {
    match v {
        Some(v) => json_flag(v),
        None => None,
    }
}

/// True when `count` is the frame counter that the JSON value holds: its
/// text where it is a string, else its number where it is one.
pub open spec fn is_frame_count_of(count: FrameCount, v: Option<serde_json::Value>) -> bool {
    match count {
        FrameCount::Text(t) => text_of(v) == Some(t@),
        FrameCount::Number(n) => text_of(v) is None && number_of(v) == Some(n),
        FrameCount::Absent => text_of(v) is None && number_of(v) is None,
    }
}

/// True when `s` holds what the JSON object `v` says of one stream.
pub open spec fn is_stream_of(s: ProbeStream, v: serde_json::Value) -> bool {
    let tags = json_member(v, "tags"@);
    let disposition = json_member(v, "disposition"@);
    &&& opt_view(s.codec_type) == text_of(json_member(v, "codec_type"@))
    &&& s.index == number_of(json_member(v, "index"@))
    &&& opt_view(s.codec_name) == text_of(json_member(v, "codec_name"@))
    &&& s.width == number_of(json_member(v, "width"@))
    &&& s.height == number_of(json_member(v, "height"@))
    &&& opt_view(s.language) == text_of(member_of(tags, "language"@))
    &&& opt_view(s.title) == text_of(member_of(tags, "title"@))
    &&& s.channels == number_of(json_member(v, "channels"@))
    &&& s.sample_rate == number_of(json_member(v, "sample_rate"@))
    &&& s.bit_rate == number_of(json_member(v, "bit_rate"@))
    &&& s.is_default == flag_of(member_of(disposition, "default"@))
    &&& s.is_forced == flag_of(member_of(disposition, "forced"@))
    &&& is_frame_count_of(s.nb_frames, json_member(v, "nb_frames"@))
    &&& opt_view(s.r_frame_rate) == text_of(json_member(v, "r_frame_rate"@))
}

/// True when `streams` holds what the JSON array says, element by element.
pub open spec fn are_streams_of(streams: Seq<ProbeStream>, items: Seq<serde_json::Value>) -> bool {
    &&& streams.len() == items.len()
    &&& forall|i: int| 0 <= i < streams.len() ==> is_stream_of(#[trigger] streams[i], items[i])
}

/// True when `out` holds what the JSON document `root` says: the format's
/// name and duration, and the streams where the document has an array of them.
pub open spec fn is_output_of(out: ProbeOutput, root: serde_json::Value) -> bool {
    let format = json_member(root, "format"@);
    let streams = json_member(root, "streams"@);
    &&& opt_view(out.format_name) == text_of(member_of(format, "format_name"@))
    &&& opt_view(out.duration) == text_of(member_of(format, "duration"@))
    &&& match out.streams {
        Some(list) => streams is Some && json_items(streams->0) is Some && are_streams_of(
            list@,
            json_items(streams->0)->0,
        ),
        None => streams is None || json_items(streams->0) is None,
    }
}

fn text_at(value: &serde_json::Value, key: &str) -> (r: Option<String>)
    ensures
        opt_view(r) == text_of(json_member(*value, key@)),
{
    match member(value, key) {
        Some(m) => text(m),
        None => None,
    }
}

fn number_at(value: &serde_json::Value, key: &str) -> (r: Option<u64>)
    ensures
        r == number_of(json_member(*value, key@)),
{
    match member(value, key) {
        Some(m) => number(m),
        None => None,
    }
}

fn nested_text(value: &serde_json::Value, outer: &str, key: &str) -> (r: Option<String>)
    ensures
        opt_view(r) == text_of(member_of(json_member(*value, outer@), key@)),
{
    match member(value, outer) {
        Some(m) => text_at(m, key),
        None => None,
    }
}

fn nested_flag(value: &serde_json::Value, outer: &str, key: &str) -> (r: Option<bool>)
    ensures
        r == flag_of(member_of(json_member(*value, outer@), key@)),
{
    match member(value, outer) {
        Some(m) => match member(m, key) {
            Some(f) => flag(f),
            None => None,
        },
        None => None,
    }
}

fn frame_count_at(value: &serde_json::Value, key: &str) -> (r: FrameCount)
    ensures
        is_frame_count_of(r, json_member(*value, key@)),
{
    match member(value, key) {
        Some(m) => match text(m) {
            Some(t) => FrameCount::Text(t),
            None => match number(m) {
                Some(n) => FrameCount::Number(n),
                None => FrameCount::Absent,
            },
        },
        None => FrameCount::Absent,
    }
}

/// Reads one stream out of its JSON object.
pub fn decode_stream(value: &serde_json::Value) -> (s: ProbeStream)
    ensures
        is_stream_of(s, *value),
{
    ProbeStream {
        codec_type: text_at(value, "codec_type"),
        index: number_at(value, "index"),
        codec_name: text_at(value, "codec_name"),
        width: number_at(value, "width"),
        height: number_at(value, "height"),
        language: nested_text(value, "tags", "language"),
        title: nested_text(value, "tags", "title"),
        channels: number_at(value, "channels"),
        sample_rate: number_at(value, "sample_rate"),
        bit_rate: number_at(value, "bit_rate"),
        is_default: nested_flag(value, "disposition", "default"),
        is_forced: nested_flag(value, "disposition", "forced"),
        nb_frames: frame_count_at(value, "nb_frames"),
        r_frame_rate: text_at(value, "r_frame_rate"),
    }
}

fn decode_streams(list: &serde_json::Value) -> (r: Option<Vec<ProbeStream>>)
    ensures
        match r {
            Some(streams) => json_items(*list) is Some && are_streams_of(
                streams@,
                json_items(*list)->0,
            ),
            None => json_items(*list) is None,
        },
{
    match item_count(list) {
        Some(n) => {
            let mut streams: Vec<ProbeStream> = Vec::new();
            let mut i: usize = 0;
            while i < n
                invariant
                    i <= n,
                    json_items(*list) is Some,
                    n == json_items(*list)->0.len(),
                    streams@.len() == i,
                    forall|k: int|
                        0 <= k < i ==> is_stream_of(
                            #[trigger] streams@[k],
                            json_items(*list)->0[k],
                        ),
                decreases n - i,
            {
                match item(list, i) {
                    Some(value) => {
                        let s = decode_stream(value);
                        streams.push(s);
                    },
                    None => {
                        assert(false);
                    },
                }
                i = i + 1;
            }
            Some(streams)
        },
        None => None,
    }
}

/// Reads the probe tool's output out of its JSON document.
pub fn decode_probe_output(root: &serde_json::Value) -> (out: ProbeOutput)
    ensures
        is_output_of(out, *root),
{
    let streams: Option<Vec<ProbeStream>> = match member(root, "streams") {
        Some(list) => decode_streams(list),
        None => None,
    };
    ProbeOutput {
        format_name: nested_text(root, "format", "format_name"),
        duration: nested_text(root, "format", "duration"),
        streams,
    }
}

/// True when `report` is the report of a run of the probe tool that was
/// started or not, ended with success or not, and printed `stdout`.
pub open spec fn is_report_of(report: ProbeReport, started: bool, succeeded: bool, stdout: Seq<char>) -> bool {
    if !started {
        report is NotStarted
    } else if !succeeded {
        report is Failed
    } else {
        match json_document(stdout) {
            Some(root) => report is Parsed && is_output_of(report->Parsed_0, root),
            None => report is Unreadable,
        }
    }
}

/// Makes the report of a run of the probe tool.
pub fn read_probe_report(started: bool, succeeded: bool, stdout: &str) -> (report: ProbeReport)
    ensures
        is_report_of(report, started, succeeded, stdout@),
{
    if !started {
        ProbeReport::NotStarted
    } else if !succeeded {
        ProbeReport::Failed
    } else {
        match parse_document(stdout) {
            Ok(root) => ProbeReport::Parsed(decode_probe_output(&root)),
            Err(_) => ProbeReport::Unreadable,
        }
    }
}

/// True when `r` is what a run of the probe tool comes to. A tool that did
/// not start, a run that failed and output that is no JSON document or has
/// no array of streams each give their error; any other run gives the
/// metadata of what the document says.
pub open spec fn is_probe_result(
    r: Result<VideoMetadata, ProbeError>,
    started: bool,
    succeeded: bool,
    stdout: Seq<char>,
    file: FileInfo,
) -> bool {
    if !started {
        r is Err && r->Err_0 == ProbeError::ToolUnavailable
    } else if !succeeded {
        r is Err && r->Err_0 == ProbeError::ExecutionFailed
    } else if json_document(stdout) is None {
        r is Err && r->Err_0 == ProbeError::MalformedOutput
    } else {
        let root = json_document(stdout)->0;
        let streams = json_member(root, "streams"@);
        if streams is Some && json_items(streams->0) is Some {
            r is Ok && exists|out: ProbeOutput|
                #![trigger is_output_of(out, root)]
                is_output_of(out, root) && out.streams is Some && is_metadata_of(
                    r->Ok_0,
                    out,
                    out.streams->0@,
                    file,
                )
        } else {
            r is Err && r->Err_0 == ProbeError::MalformedOutput
        }
    }
}

/// Turns a run of the probe tool into the metadata of the file: the tool
/// must have started and ended with success, and its output must be a JSON
/// document with a streams section.
pub fn probe(started: bool, succeeded: bool, stdout: &str, file: FileInfo) -> (r: Result<
    VideoMetadata,
    ProbeError,
>)
    ensures
        is_probe_result(r, started, succeeded, stdout@, file),
{
    let report = read_probe_report(started, succeeded, stdout);
    let r = extract_metadata(&report, file);
    proof {
        if started && succeeded && json_document(stdout@) is Some {
            let out = report->Parsed_0;
            if out.streams is Some {
                assert(is_output_of(out, json_document(stdout@)->0));
            }
        }
    }
    r
}

/// The container indices that the streams state, in order, each cut down
/// to 32 bits; a stream that states none is left out.
pub open spec fn stated_indices(streams: Seq<ProbeStream>) -> Seq<u32>
    decreases streams.len(),
{
    if streams.len() == 0 {
        Seq::<u32>::empty()
    } else {
        let before = stated_indices(streams.drop_last());
        match streams.last().index {
            Some(n) => before.push((n % 0x1_0000_0000) as u32),
            None => before,
        }
    }
}

/// Lists the container indices of the streams of a probe report. A report
/// without streams gives the error that `probe_failure` names.
pub fn stream_indices(report: &ProbeReport) -> (r: Result<Vec<u32>, ProbeError>)
    ensures
        match probe_failure(*report) {
            Some(e) => r is Err && r->Err_0 == e,
            None => r is Ok && report is Parsed && r->Ok_0@ == stated_indices(
                report->Parsed_0.streams->0@,
            ),
        },
{
    match report {
        ProbeReport::NotStarted => Err(ProbeError::ToolUnavailable),
        ProbeReport::Failed => Err(ProbeError::ExecutionFailed),
        ProbeReport::Unreadable => Err(ProbeError::MalformedOutput),
        ProbeReport::Parsed(out) => match &out.streams {
            Some(streams) => {
                let mut indices: Vec<u32> = Vec::new();
                let mut i: usize = 0;
                assert(streams@.subrange(0, 0) =~= Seq::<ProbeStream>::empty());
                while i < streams.len()
                    invariant
                        i <= streams.len(),
                        indices@ == stated_indices(streams@.subrange(0, i as int)),
                    decreases streams.len() - i,
                {
                    proof {
                        let next = streams@.subrange(0, i + 1);
                        assert(next.drop_last() =~= streams@.subrange(0, i as int));
                        assert(next.last() == streams@[i as int]);
                    }
                    match streams[i].index {
                        Some(n) => indices.push((n % 0x1_0000_0000) as u32),
                        None => {},
                    }
                    i = i + 1;
                }
                assert(streams@.subrange(0, streams.len() as int) =~= streams@);
                Ok(indices)
            },
            None => Err(ProbeError::MalformedOutput),
        },
    }
}

/// The number of characters of the tool's output that go with an error report.
pub const EXCERPT_CHARS: usize = 200;

/// The start of a text, cut off after `EXCERPT_CHARS` characters.
pub open spec fn excerpt_of(output: Seq<char>) -> Seq<char> {
    if output.len() <= EXCERPT_CHARS {
        output
    } else {
        output.take(EXCERPT_CHARS as int)
    }
}

/// Cuts the tool's output down to what goes with the report of output that
/// could not be read.
pub fn output_excerpt(stdout: &str) -> (out: String)
    ensures
        out@ == excerpt_of(stdout@),
{
    let chars = chars_of(stdout);
    let n: usize = if chars.len() <= EXCERPT_CHARS {
        chars.len()
    } else {
        EXCERPT_CHARS
    };
    let head = slice_chars(&chars, 0, n);
    assert(head@ =~= excerpt_of(stdout@));
    string_of(&head)
}

} // verus!
