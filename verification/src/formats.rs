use vstd::prelude::*;
use crate::text::{chars_of, has_prefix, join_from, joined, rows, split, split_on, split_words, starts_with, str_equal, string_of, texts, trim, trimmed, words};
use crate::unicode::{lowercase_of, to_lowercase};

verus! {

/// One container format that the transcoding tool can write.
#[derive(Clone, Debug)]
pub struct FfmpegFormat {
    pub name: String,
    pub description: String,
    /// The usual file extensions of the format, without the dot.
    pub extensions: Vec<String>,
}

/// What a format record holds, as plain values.
pub struct FormatFacts {
    pub name: Seq<char>,
    pub description: Seq<char>,
    pub extensions: Seq<Seq<char>>,
}

impl View for FfmpegFormat {
    type V = FormatFacts;

    open spec fn view(&self) -> FormatFacts {
        FormatFacts {
            name: self.name@,
            description: self.description@,
            extensions: texts(self.extensions@),
        }
    }
}

/// The usual file extensions of a format, looked up by its name in lower
/// case. A format outside the table has its own name as extension.
pub open spec fn extensions_of(name: Seq<char>) -> Seq<Seq<char>> {
    let key = lowercase_of(name);
    if key == "mp4"@ || key == "mov"@ || key == "avi"@ || key == "mkv"@ || key == "webm"@ || key
        == "flv"@ || key == "wmv"@ || key == "m4v"@ || key == "3gp"@ || key == "ogv"@ || key
        == "ts"@ || key == "mts"@ || key == "m2ts"@ || key == "vob"@ || key == "asf"@ || key
        == "rm"@ || key == "rmvb"@ || key == "divx"@ {
        seq![key]
    } else if key == "xvid"@ {
        seq!["avi"@]
    } else if key == "h264"@ || key == "hevc"@ || key == "av1"@ {
        seq!["mp4"@, "mkv"@]
    } else if key == "vp8"@ || key == "vp9"@ {
        seq!["webm"@]
    } else {
        seq![name]
    }
}

fn one(text: String) -> (out: Vec<String>)
    ensures
        texts(out@) == seq![text@],
{
    let mut out: Vec<String> = Vec::new();
    out.push(text);
    assert(texts(out@) =~= seq![text@]);
    out
}

fn two(first: &str, second: &str) -> (out: Vec<String>)
    ensures
        texts(out@) == seq![first@, second@],
{
    let mut out: Vec<String> = Vec::new();
    out.push(first.to_owned());
    out.push(second.to_owned());
    assert(texts(out@) =~= seq![first@, second@]);
    out
}

/// Lists the usual file extensions of a format.
pub fn get_format_extensions(format_name: &str) -> (out: Vec<String>)
    ensures
        texts(out@) == extensions_of(format_name@),
{
    let key = to_lowercase(format_name);
    let k = key.as_str();
    if str_equal(k, "mp4") || str_equal(k, "mov") || str_equal(k, "avi") || str_equal(k, "mkv")
        || str_equal(k, "webm") || str_equal(k, "flv") || str_equal(k, "wmv") || str_equal(
        k,
        "m4v",
    ) || str_equal(k, "3gp") || str_equal(k, "ogv") || str_equal(k, "ts") || str_equal(k, "mts")
        || str_equal(k, "m2ts") || str_equal(k, "vob") || str_equal(k, "asf") || str_equal(
        k,
        "rm",
    ) || str_equal(k, "rmvb") || str_equal(k, "divx") {
        one(key)
    } else if str_equal(k, "xvid") {
        one("avi".to_owned())
    } else if str_equal(k, "h264") || str_equal(k, "hevc") || str_equal(k, "av1") {
        two("mp4", "mkv")
    } else if str_equal(k, "vp8") || str_equal(k, "vp9") {
        one("webm".to_owned())
    } else {
        one(format_name.to_owned())
    }
}

/// What a line of the format listing says: the second word is the name,
/// the words from the third on are the description. A line of fewer than
/// three words says nothing.
pub open spec fn format_in_line(line: Seq<char>) -> Option<FormatFacts> {
    let parts = words(line);
    if parts.len() < 3 {
        None
    } else {
        Some(
            FormatFacts {
                name: parts[1],
                description: joined(parts.skip(2), " "@),
                extensions: extensions_of(parts[1]),
            },
        )
    }
}

/// The view of an optional format record.
pub open spec fn format_view(f: Option<FfmpegFormat>) -> Option<FormatFacts> {
    match f {
        Some(f) => Some(f@),
        None => None,
    }
}

fn format_of_chars(line: &Vec<char>) -> (r: Option<FfmpegFormat>)
    ensures
        format_view(r) == format_in_line(line@),
{
    let parts = split_words(line);
    if parts.len() < 3 {
        return None;
    }
    assert(rows(parts@)[1] == parts@[1]@);
    let name = string_of(&parts[1]);
    let description = string_of(&join_from(&parts, 2, &chars_of(" ")));
    let extensions = get_format_extensions(name.as_str());
    Some(FfmpegFormat { name, description, extensions })
}

/// Reads one line of the format listing.
pub fn parse_format_line(line: &str) -> (r: Option<FfmpegFormat>)
    ensures
        format_view(r) == format_in_line(line@),
{
    format_of_chars(&chars_of(line))
}

/// The state of reading the listing: whether the heading was passed, and the
/// formats found so far.
pub struct ListingFacts {
    pub in_section: bool,
    pub formats: Seq<FormatFacts>,
}

/// The state after one more line. The heading `Formats:` opens the section;
/// inside it, a line whose flags are `DE` names a format that can be written.
pub open spec fn after_line(state: ListingFacts, raw_line: Seq<char>) -> ListingFacts {
    let line = trimmed(raw_line);
    if has_prefix(line, "Formats:"@) {
        ListingFacts { in_section: true, formats: state.formats }
    } else if state.in_section && has_prefix(line, "DE "@) && format_in_line(line) is Some {
        ListingFacts { in_section: true, formats: state.formats.push(format_in_line(line)->0) }
    } else {
        state
    }
}

/// The state after all the lines, first to last.
pub open spec fn after_lines(lines: Seq<Seq<char>>) -> ListingFacts
    decreases lines.len(),
{
    if lines.len() == 0 {
        ListingFacts { in_section: false, formats: Seq::<FormatFacts>::empty() }
    } else {
        after_line(after_lines(lines.drop_last()), lines.last())
    }
}

/// The formats that a whole listing names.
pub open spec fn formats_in(listing: Seq<char>) -> Seq<FormatFacts> {
    after_lines(split_on(listing, '\n')).formats
}

/// The views of a sequence of format records.
pub open spec fn format_views(formats: Seq<FfmpegFormat>) -> Seq<FormatFacts> {
    formats.map_values(|f: FfmpegFormat| f@)
}

/// Reads the tool's format listing.
pub fn parse_formats_output(output: &str) -> (formats: Vec<FfmpegFormat>)
    ensures
        format_views(formats@) == formats_in(output@),
{
    let chars = chars_of(output);
    let lines = split(&chars, '\n');
    let mut formats: Vec<FfmpegFormat> = Vec::new();
    let mut in_section: bool = false;
    let mut i: usize = 0;
    assert(rows(lines@).subrange(0, 0) =~= Seq::<Seq<char>>::empty());
    assert(format_views(formats@) =~= Seq::<FormatFacts>::empty());
    while i < lines.len()
        invariant
            i <= lines.len(),
            rows(lines@) == split_on(output@, '\n'),
            (ListingFacts { in_section, formats: format_views(formats@) }) == after_lines(
                rows(lines@).subrange(0, i as int),
            ),
        decreases lines.len() - i,
    {
        proof {
            let next = rows(lines@).subrange(0, i + 1);
            assert(next.drop_last() =~= rows(lines@).subrange(0, i as int));
            assert(next.last() == lines@[i as int]@);
        }
        let line = trim(&lines[i]);
        if starts_with(&line, &chars_of("Formats:")) {
            in_section = true;
        } else if in_section && starts_with(&line, &chars_of("DE ")) {
            match format_of_chars(&line) {
                Some(format) => {
                    let ghost shown = format_views(formats@).push(format@);
                    formats.push(format);
                    assert(format_views(formats@) =~= shown);
                },
                None => {},
            }
        }
        i = i + 1;
    }
    assert(rows(lines@).subrange(0, lines.len() as int) =~= rows(lines@));
    formats
}

/// The formats that are offered without asking the tool.
pub open spec fn common_formats() -> Seq<FormatFacts> {
    seq![
        FormatFacts {
            name: "mp4"@,
            description: "MP4 (MPEG-4 Part 14)"@,
            extensions: seq!["mp4"@],
        },
        FormatFacts { name: "mkv"@, description: "Matroska"@, extensions: seq!["mkv"@] },
        FormatFacts {
            name: "avi"@,
            description: "AVI (Audio Video Interleave)"@,
            extensions: seq!["avi"@],
        },
        FormatFacts { name: "mov"@, description: "QuickTime Movie"@, extensions: seq!["mov"@] },
        FormatFacts { name: "webm"@, description: "WebM"@, extensions: seq!["webm"@] },
    ]
}

fn plain_format(name: &str, description: &str) -> (f: FfmpegFormat)
    ensures
        f@ == (FormatFacts { name: name@, description: description@, extensions: seq![name@] }),
{
    FfmpegFormat {
        name: name.to_owned(),
        description: description.to_owned(),
        extensions: one(name.to_owned()),
    }
}

/// Lists the formats that are offered without asking the tool.
pub fn common_output_formats() -> (formats: Vec<FfmpegFormat>)
    ensures
        format_views(formats@) == common_formats(),
{
    let mut formats: Vec<FfmpegFormat> = Vec::new();
    formats.push(plain_format("mp4", "MP4 (MPEG-4 Part 14)"));
    formats.push(plain_format("mkv", "Matroska"));
    formats.push(plain_format("avi", "AVI (Audio Video Interleave)"));
    formats.push(plain_format("mov", "QuickTime Movie"));
    formats.push(plain_format("webm", "WebM"));
    assert(format_views(formats@) =~= common_formats());
    formats
}

} // verus!
