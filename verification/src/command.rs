use vstd::prelude::*;
use crate::capabilities::GpuCapabilities;
use crate::number::{decimal, decimal_text};
use crate::options::{AudioStrategy, ConversionOptions, ProgressSink, SubtitleStrategy};
use crate::text::{chars_of, ends_with, extend_chars, has_substring, has_suffix, str_contains, str_equal, string_of, texts};
use crate::unicode::{lowercase_of, to_lowercase};

verus! {

/// The view of an optional string.
pub open spec fn text_or(value: Option<String>, fallback: Seq<char>) -> Seq<char> {
    match value {
        Some(s) => s@,
        None => fallback,
    }
}

/// True for the codec names of the NVIDIA hardware encoder family.
pub open spec fn is_nvenc(codec: Seq<char>) -> bool {
    has_substring(codec, "nvenc"@)
}

/// True for the codec names of the software encoders that take a CRF.
pub open spec fn is_software(codec: Seq<char>) -> bool {
    has_substring(codec, "libx26"@)
}

/// The hardware preset that a software preset name maps to. A name outside
/// the table passes through unchanged.
pub open spec fn nvenc_preset(preset: Seq<char>) -> Seq<char> {
    if preset == "ultrafast"@ {
        "p1"@
    } else if preset == "superfast"@ {
        "p2"@
    } else if preset == "veryfast"@ || preset == "faster"@ {
        "p3"@
    } else if preset == "fast"@ || preset == "medium"@ {
        "p4"@
    } else if preset == "slow"@ {
        "p5"@
    } else if preset == "slower"@ {
        "p6"@
    } else if preset == "veryslow"@ {
        "p7"@
    } else {
        preset
    }
}

/// The preset handed to the encoder.
pub open spec fn resolved_preset(codec: Seq<char>, preset: Option<String>) -> Seq<char> {
    if is_nvenc(codec) {
        nvenc_preset(text_or(preset, "p4"@))
    } else {
        text_or(preset, "fast"@)
    }
}

/// The quality arguments: a CRF for a software encoder, the constant-quality
/// flag for the hardware family, nothing otherwise.
pub open spec fn quality_args(o: &ConversionOptions) -> Seq<Seq<char>> {
    match o.crf {
        Some(crf) => {
            if is_software(o.video_codec@) {
                seq!["-crf"@, decimal(crf as nat)]
            } else if is_nvenc(o.video_codec@) {
                seq!["-cq"@, decimal(crf as nat)]
            } else {
                seq![]
            }
        },
        None => seq![],
    }
}

/// A flag followed by its value, when the value is present.
pub open spec fn optional_pair(flag: Seq<char>, value: Option<String>) -> Seq<Seq<char>> {
    match value {
        Some(v) => seq![flag, v@],
        None => seq![],
    }
}

/// The input, the video codec with its preset, quality, profile and tune,
/// and the mapping of the video streams.
pub open spec fn video_args(o: &ConversionOptions) -> Seq<Seq<char>> {
    seq![
        "-i"@,
        o.input_path@,
        "-c:v"@,
        o.video_codec@,
        "-preset"@,
        resolved_preset(o.video_codec@, o.preset),
    ] + quality_args(o) + optional_pair("-profile:v"@, o.profile) + optional_pair(
        "-tune"@,
        o.tune,
    ) + seq!["-map"@, "0:v"@]
}

/// The stream specifier of the input stream with container index `index`.
pub open spec fn stream_selector(index: u32) -> Seq<char> {
    "0:"@ + decimal(index as nat)
}

/// The audio codec with its bitrate; the bitrate is left out for a stream copy.
pub open spec fn audio_codec_args(o: &ConversionOptions) -> Seq<Seq<char>> {
    let codec = text_or(o.audio_codec, "aac"@);
    if codec == "copy"@ {
        seq!["-c:a"@, codec]
    } else {
        seq!["-c:a"@, codec, "-b:a"@, text_or(o.audio_bitrate, "128k"@)]
    }
}

/// The audio part of the argument vector.
pub open spec fn audio_args(o: &ConversionOptions) -> Seq<Seq<char>> {
    match o.audio_strategy {
        AudioStrategy::CopyAll => seq!["-map"@, "0:a"@, "-c:a"@, "copy"@],
        AudioStrategy::ConvertAll => seq!["-map"@, "0:a"@] + audio_codec_args(o),
        _ => {
            let selector = match o.audio_track_index {
                Some(index) => stream_selector(index),
                None => "0:a:0"@,
            };
            seq!["-map"@, selector] + audio_codec_args(o)
        },
    }
}

/// True when the output container takes text subtitles only.
pub open spec fn needs_text_subtitles(output_path: Seq<char>) -> bool {
    has_suffix(lowercase_of(output_path), ".mp4"@)
}

/// The subtitle part of the argument vector.
pub open spec fn subtitle_args(o: &ConversionOptions) -> Seq<Seq<char>> {
    match o.subtitle_strategy {
        SubtitleStrategy::CopyAll => {
            if needs_text_subtitles(o.output_path@) {
                seq!["-map"@, "0:s"@, "-c:s"@, "mov_text"@]
            } else {
                seq!["-map"@, "0:s"@, "-c:s"@, "copy"@]
            }
        },
        SubtitleStrategy::Ignore => seq!["-sn"@],
        _ => {
            match o.subtitle_track_index {
                Some(index) => seq!["-map"@, stream_selector(index), "-c:s"@, "mov_text"@],
                None => seq![],
            }
        },
    }
}

/// The target of the progress report as the tool takes it.
pub open spec fn sink_text(sink: &ProgressSink) -> Seq<char> {
    match sink {
        ProgressSink::Pipe => "pipe:1"@,
        ProgressSink::Sidecar(path) => path@,
    }
}

/// The progress report, the overwrite flag and, last, the output path.
pub open spec fn closing_args(o: &ConversionOptions, sink: &ProgressSink) -> Seq<Seq<char>> {
    seq!["-progress"@, sink_text(sink), "-y"@, o.output_path@]
}

/// The whole argument vector of one conversion.
pub open spec fn command_line(o: &ConversionOptions, sink: &ProgressSink) -> Seq<Seq<char>> {
    video_args(o) + audio_args(o) + subtitle_args(o) + closing_args(o, sink)
}

/// The name of the sidecar progress file of the job `id`.
pub open spec fn sidecar_name(id: Seq<char>) -> Seq<char> {
    "ffmpeg_progress_"@ + id + ".txt"@
}

fn push_text(args: &mut Vec<String>, value: String)
    ensures
        texts(final(args)@) == texts(old(args)@).push(value@),
{
    let ghost before = args@;
    args.push(value);
    assert(texts(args@) =~= texts(before).push(value@));
}

fn push_literal(args: &mut Vec<String>, value: &str)
    ensures
        texts(final(args)@) == texts(old(args)@).push(value@),
{
    push_text(args, value.to_owned());
}

fn push_optional_pair(args: &mut Vec<String>, flag: &str, value: &Option<String>)
    ensures
        texts(final(args)@) == texts(old(args)@) + optional_pair(flag@, *value),
{
    match value {
        Some(v) => {
            push_literal(args, flag);
            push_text(args, v.clone());
            assert(texts(args@) =~= texts(old(args)@) + optional_pair(flag@, *value));
        },
        None => {
            assert(texts(args@) =~= texts(old(args)@) + optional_pair(flag@, *value));
        },
    }
}

/// Maps a software preset name onto the hardware preset scale.
pub fn map_nvenc_preset(preset: &str) -> (out: String)
    ensures
        out@ == nvenc_preset(preset@),
{
    if str_equal(preset, "ultrafast") {
        "p1".to_owned()
    } else if str_equal(preset, "superfast") {
        "p2".to_owned()
    } else if str_equal(preset, "veryfast") || str_equal(preset, "faster") {
        "p3".to_owned()
    } else if str_equal(preset, "fast") || str_equal(preset, "medium") {
        "p4".to_owned()
    } else if str_equal(preset, "slow") {
        "p5".to_owned()
    } else if str_equal(preset, "slower") {
        "p6".to_owned()
    } else if str_equal(preset, "veryslow") {
        "p7".to_owned()
    } else {
        preset.to_owned()
    }
}

/// Chooses the preset for a codec: the caller's, mapped onto the hardware
/// scale for a hardware encoder, or a mid-tier default.
pub fn resolve_preset(codec: &str, preset: &Option<String>) -> (out: String)
    ensures
        out@ == resolved_preset(codec@, *preset),
{
    if str_contains(codec, "nvenc") {
        match preset {
            Some(p) => map_nvenc_preset(p.as_str()),
            None => map_nvenc_preset("p4"),
        }
    } else {
        match preset {
            Some(p) => p.clone(),
            None => "fast".to_owned(),
        }
    }
}

/// Writes the stream specifier of the input stream with the given container index.
pub fn stream_selector_text(index: u32) -> (out: String)
    ensures
        out@ == stream_selector(index),
{
    let mut chars = chars_of("0:");
    let digits = decimal_text(index as u64);
    extend_chars(&mut chars, &digits);
    string_of(&chars)
}

/// Tells whether the output container takes text subtitles only.
pub fn output_needs_text_subtitles(output_path: &str) -> (r: bool)
    ensures
        r == needs_text_subtitles(output_path@),
{
    let lower = to_lowercase(output_path);
    let chars = chars_of(lower.as_str());
    let suffix = chars_of(".mp4");
    ends_with(&chars, &suffix)
}

/// The file name of the sidecar progress file of the job `id`.
pub fn sidecar_file_name(id: &str) -> (out: String)
    ensures
        out@ == sidecar_name(id@),
{
    let mut chars = chars_of("ffmpeg_progress_");
    let middle = chars_of(id);
    extend_chars(&mut chars, &middle);
    let tail = chars_of(".txt");
    extend_chars(&mut chars, &tail);
    string_of(&chars)
}

fn push_audio_codec(args: &mut Vec<String>, o: &ConversionOptions)
    ensures
        texts(final(args)@) == texts(old(args)@) + audio_codec_args(o),
{
    let codec: String = match &o.audio_codec {
        Some(c) => c.clone(),
        None => "aac".to_owned(),
    };
    let is_copy = str_equal(codec.as_str(), "copy");
    push_literal(args, "-c:a");
    push_text(args, codec);
    if !is_copy {
        push_literal(args, "-b:a");
        match &o.audio_bitrate {
            Some(b) => push_text(args, b.clone()),
            None => push_literal(args, "128k"),
        }
    }
    assert(texts(args@) =~= texts(old(args)@) + audio_codec_args(o));
}

fn push_video(args: &mut Vec<String>, o: &ConversionOptions)
    ensures
        texts(final(args)@) == texts(old(args)@) + video_args(o),
{
    push_literal(args, "-i");
    push_text(args, o.input_path.clone());
    push_literal(args, "-c:v");
    push_text(args, o.video_codec.clone());
    push_literal(args, "-preset");
    push_text(args, resolve_preset(o.video_codec.as_str(), &o.preset));
    let ghost head = texts(args@);
    match o.crf {
        Some(crf) => {
            let digits = decimal_text(crf as u64);
            if str_contains(o.video_codec.as_str(), "libx26") {
                push_literal(args, "-crf");
                push_text(args, string_of(&digits));
            } else if str_contains(o.video_codec.as_str(), "nvenc") {
                push_literal(args, "-cq");
                push_text(args, string_of(&digits));
            }
        },
        None => {},
    }
    assert(texts(args@) =~= head + quality_args(o));
    push_optional_pair(args, "-profile:v", &o.profile);
    push_optional_pair(args, "-tune", &o.tune);
    push_literal(args, "-map");
    push_literal(args, "0:v");
    assert(texts(args@) =~= texts(old(args)@) + video_args(o));
}

fn push_audio(args: &mut Vec<String>, o: &ConversionOptions)
    ensures
        texts(final(args)@) == texts(old(args)@) + audio_args(o),
{
    match o.audio_strategy {
        AudioStrategy::CopyAll => {
            push_literal(args, "-map");
            push_literal(args, "0:a");
            push_literal(args, "-c:a");
            push_literal(args, "copy");
        },
        AudioStrategy::ConvertAll => {
            push_literal(args, "-map");
            push_literal(args, "0:a");
            push_audio_codec(args, o);
        },
        _ => {
            push_literal(args, "-map");
            match o.audio_track_index {
                Some(index) => push_text(args, stream_selector_text(index)),
                None => push_literal(args, "0:a:0"),
            }
            push_audio_codec(args, o);
        },
    }
    assert(texts(args@) =~= texts(old(args)@) + audio_args(o));
}

fn push_subtitles(args: &mut Vec<String>, o: &ConversionOptions)
    ensures
        texts(final(args)@) == texts(old(args)@) + subtitle_args(o),
{
    match o.subtitle_strategy {
        SubtitleStrategy::CopyAll => {
            push_literal(args, "-map");
            push_literal(args, "0:s");
            push_literal(args, "-c:s");
            if output_needs_text_subtitles(o.output_path.as_str()) {
                push_literal(args, "mov_text");
            } else {
                push_literal(args, "copy");
            }
        },
        SubtitleStrategy::Ignore => {
            push_literal(args, "-sn");
        },
        _ => {
            match o.subtitle_track_index {
                Some(index) => {
                    push_literal(args, "-map");
                    push_text(args, stream_selector_text(index));
                    push_literal(args, "-c:s");
                    push_literal(args, "mov_text");
                },
                None => {},
            }
        },
    }
    assert(texts(args@) =~= texts(old(args)@) + subtitle_args(o));
}

/// Builds the argument vector of the transcoding tool for one conversion.
///
/// The vector depends on the options and on the progress sink alone. The
/// detected capabilities are a hint for choosing a codec and change nothing
/// here: a codec is never replaced behind the caller's back.
pub fn build_args(o: &ConversionOptions, capabilities: &GpuCapabilities, sink: &ProgressSink) -> (args:
    Vec<String>)
    ensures
        texts(args@) == command_line(o, sink),
{
    let mut args: Vec<String> = Vec::new();
    assert(texts(args@) =~= Seq::<Seq<char>>::empty());
    push_video(&mut args, o);
    push_audio(&mut args, o);
    push_subtitles(&mut args, o);
    push_literal(&mut args, "-progress");
    match sink {
        ProgressSink::Pipe => push_literal(&mut args, "pipe:1"),
        ProgressSink::Sidecar(path) => push_text(&mut args, path.clone()),
    }
    push_literal(&mut args, "-y");
    push_text(&mut args, o.output_path.clone());
    assert(texts(args@) =~= command_line(o, sink));
    args
}

/// A present value as a one-word sequence; nothing for an absent one.
pub open spec fn optional_word(value: Option<String>) -> Seq<Seq<char>> {
    match value {
        Some(v) => seq![v@],
        None => seq![],
    }
}

/// The words that reach the argument vector as the caller wrote them,
/// whatever the audio and subtitle strategies are.
pub open spec fn caller_words(o: &ConversionOptions, sink: &ProgressSink) -> Seq<Seq<char>> {
    seq![o.input_path@, o.video_codec@, o.output_path@, sink_text(sink)] + optional_word(
        o.preset,
    ) + optional_word(o.profile) + optional_word(o.tune)
}

/// True when `first` stands in `args` directly before `second`.
pub open spec fn has_pair(args: Seq<Seq<char>>, first: Seq<char>, second: Seq<char>) -> bool {
    exists|i: int| pair_at(args, i, first, second)
}

/// True when `first` stands at position `i` of `args` and `second` right after it.
pub open spec fn pair_at(args: Seq<Seq<char>>, i: int, first: Seq<char>, second: Seq<char>) -> bool {
    0 <= i && i + 1 < args.len() && args[i] == first && args[i + 1] == second
}

/// A word of a concatenation is a word of one of its parts.
pub proof fn lemma_contains_concat(a: Seq<Seq<char>>, b: Seq<Seq<char>>, word: Seq<char>)
    ensures
        (a + b).contains(word) <==> a.contains(word) || b.contains(word),
{
    if (a + b).contains(word) {
        let i = choose|i: int| 0 <= i < (a + b).len() && (a + b)[i] == word;
        if i < a.len() {
            assert(a[i] == word);
        } else {
            assert(b[i - a.len()] == word);
        }
    }
    if a.contains(word) {
        let i = choose|i: int| 0 <= i < a.len() && a[i] == word;
        assert((a + b)[i] == word);
    }
    if b.contains(word) {
        let i = choose|i: int| 0 <= i < b.len() && b[i] == word;
        assert((a + b)[i + a.len()] == word);
    }
}

/// A pair of neighbours in a concatenation lies in one part, or it ends the
/// first part and begins the second.
pub proof fn lemma_pair_concat(
    a: Seq<Seq<char>>,
    b: Seq<Seq<char>>,
    first: Seq<char>,
    second: Seq<char>,
)
    requires
        has_pair(a + b, first, second),
    ensures
        has_pair(a, first, second) || has_pair(b, first, second) || (a.len() > 0 && b.len() > 0
            && a.last() == first && b[0] == second),
{
    let i = choose|i: int| pair_at(a + b, i, first, second);
    if i + 1 < a.len() {
        assert(pair_at(a, i, first, second));
    } else if i >= a.len() {
        assert(pair_at(b, i - a.len(), first, second));
    } else {
        assert(a.last() == first && b[0] == second);
    }
}

/// The decimal writing of a number is not empty, and it begins and ends with a digit.
pub proof fn lemma_decimal_digits(n: nat)
    ensures
        decimal(n).len() >= 1,
        crate::number::is_digit(decimal(n).last()),
        crate::number::is_digit(decimal(n)[0]),
    decreases n,
{
    if n >= 10 {
        lemma_decimal_digits(n / 10);
    }
}

/// With every audio stream converted and the audio codec set to a stream
/// copy, the audio part of the vector holds no audio bitrate flag; nor does
/// the whole vector, unless the caller wrote that very flag as one of the
/// words that are handed on unchanged.
pub proof fn law_stream_copy_has_no_audio_bitrate(o: &ConversionOptions, sink: &ProgressSink)
    requires
        o.audio_strategy == AudioStrategy::ConvertAll,
        o.audio_codec is Some,
        o.audio_codec->0@ == "copy"@,
    ensures
        !audio_args(o).contains("-b:a"@),
        !caller_words(o, sink).contains("-b:a"@) ==> !command_line(o, sink).contains("-b:a"@),
{
    let flag = "-b:a"@;
    reveal_strlit("-b:a");
    reveal_strlit("-map");
    reveal_strlit("0:a");
    reveal_strlit("-c:a");
    reveal_strlit("copy");
    let audio = audio_args(o);
    assert(audio =~= seq!["-map"@, "0:a"@, "-c:a"@, "copy"@]);
    assert(!audio.contains(flag)) by {
        if audio.contains(flag) {
            let i = choose|i: int| 0 <= i < audio.len() && audio[i] == flag;
            assert(audio[i].len() == 4 && audio[i][1] == 'b');
        }
    }
    if !caller_words(o, sink).contains(flag) {
        lemma_words_absent(o, sink, flag);
        lemma_video_words(o, flag);
        lemma_subtitle_words(o, flag);
        let closing = closing_args(o, sink);
        reveal_strlit("-progress");
        reveal_strlit("-y");
        assert(!closing.contains(flag)) by {
            if closing.contains(flag) {
                let i = choose|i: int| 0 <= i < closing.len() && closing[i] == flag;
                assert(closing[i].len() == 4 && closing[i][1] == 'b');
            }
        }
        lemma_contains_concat(video_args(o), audio, flag);
        lemma_contains_concat(video_args(o) + audio, subtitle_args(o), flag);
        lemma_contains_concat(video_args(o) + audio + subtitle_args(o), closing, flag);
    }
}

/// A word that the caller did not write is none of the caller's words.
proof fn lemma_words_absent(o: &ConversionOptions, sink: &ProgressSink, flag: Seq<char>)
    requires
        !caller_words(o, sink).contains(flag),
    ensures
        o.input_path@ != flag,
        o.video_codec@ != flag,
        o.output_path@ != flag,
        sink_text(sink) != flag,
        o.preset is Some ==> o.preset->0@ != flag,
        o.profile is Some ==> o.profile->0@ != flag,
        o.tune is Some ==> o.tune->0@ != flag,
{
    let base = seq![o.input_path@, o.video_codec@, o.output_path@, sink_text(sink)];
    lemma_contains_concat(
        base + optional_word(o.preset) + optional_word(o.profile),
        optional_word(o.tune),
        flag,
    );
    lemma_contains_concat(base + optional_word(o.preset), optional_word(o.profile), flag);
    lemma_contains_concat(base, optional_word(o.preset), flag);
    assert(base[0] == o.input_path@ && base[1] == o.video_codec@ && base[2] == o.output_path@
        && base[3] == sink_text(sink));
    if o.preset is Some {
        assert(optional_word(o.preset)[0] == o.preset->0@);
    }
    if o.profile is Some {
        assert(optional_word(o.profile)[0] == o.profile->0@);
    }
    if o.tune is Some {
        assert(optional_word(o.tune)[0] == o.tune->0@);
    }
}

/// The video part holds the audio bitrate flag only where the caller wrote it.
proof fn lemma_video_words(o: &ConversionOptions, flag: Seq<char>)
    requires
        flag == "-b:a"@,
        o.input_path@ != flag,
        o.video_codec@ != flag,
        o.preset is Some ==> o.preset->0@ != flag,
        o.profile is Some ==> o.profile->0@ != flag,
        o.tune is Some ==> o.tune->0@ != flag,
    ensures
        !video_args(o).contains(flag),
{
    reveal_strlit("-b:a");
    reveal_strlit("-i");
    reveal_strlit("-c:v");
    reveal_strlit("-preset");
    reveal_strlit("-crf");
    reveal_strlit("-cq");
    reveal_strlit("-profile:v");
    reveal_strlit("-tune");
    reveal_strlit("-map");
    reveal_strlit("0:v");
    reveal_strlit("p1");
    reveal_strlit("p2");
    reveal_strlit("p3");
    reveal_strlit("p4");
    reveal_strlit("p5");
    reveal_strlit("p6");
    reveal_strlit("p7");
    reveal_strlit("fast");
    let head = seq![
        "-i"@,
        o.input_path@,
        "-c:v"@,
        o.video_codec@,
        "-preset"@,
        resolved_preset(o.video_codec@, o.preset),
    ];
    let quality = quality_args(o);
    let profile = optional_pair("-profile:v"@, o.profile);
    let tune = optional_pair("-tune"@, o.tune);
    let map = seq!["-map"@, "0:v"@];
    assert(resolved_preset(o.video_codec@, o.preset) != flag) by {
        let chosen = resolved_preset(o.video_codec@, o.preset);
        let asked = text_or(o.preset, "p4"@);
        if is_nvenc(o.video_codec@) {
            assert(chosen == asked || chosen.len() == 2);
            assert("p4"@.len() == 2);
        } else {
            assert("fast"@[1] == 'a');
        }
    }
    assert(!head.contains(flag)) by {
        if head.contains(flag) {
            let i = choose|i: int| 0 <= i < head.len() && head[i] == flag;
            assert(head[i].len() == 4 && head[i][1] == 'b');
        }
    }
    assert(!quality.contains(flag)) by {
        if quality.contains(flag) {
            let i = choose|i: int| 0 <= i < quality.len() && quality[i] == flag;
            lemma_decimal_digits(o.crf->0 as nat);
            assert(quality[i].len() == 4 && quality[i][1] == 'b' && quality[i][3] == 'a');
        }
    }
    assert(!profile.contains(flag)) by {
        if profile.contains(flag) {
            let i = choose|i: int| 0 <= i < profile.len() && profile[i] == flag;
            assert(profile[i].len() == 4);
        }
    }
    assert(!tune.contains(flag)) by {
        if tune.contains(flag) {
            let i = choose|i: int| 0 <= i < tune.len() && tune[i] == flag;
            assert(tune[i].len() == 4 && tune[i][1] == 'b');
        }
    }
    assert(!map.contains(flag)) by {
        if map.contains(flag) {
            let i = choose|i: int| 0 <= i < map.len() && map[i] == flag;
            assert(map[i].len() == 4 && map[i][1] == 'b');
        }
    }
    lemma_contains_concat(head, quality, flag);
    lemma_contains_concat(head + quality, profile, flag);
    lemma_contains_concat(head + quality + profile, tune, flag);
    lemma_contains_concat(head + quality + profile + tune, map, flag);
}

/// The subtitle part never holds the audio bitrate flag.
proof fn lemma_subtitle_words(o: &ConversionOptions, flag: Seq<char>)
    requires
        flag == "-b:a"@,
    ensures
        !subtitle_args(o).contains(flag),
{
    reveal_strlit("-b:a");
    reveal_strlit("-map");
    reveal_strlit("0:s");
    reveal_strlit("-c:s");
    reveal_strlit("mov_text");
    reveal_strlit("copy");
    reveal_strlit("-sn");
    reveal_strlit("0:");
    let subs = subtitle_args(o);
    if subs.contains(flag) {
        let i = choose|i: int| 0 <= i < subs.len() && subs[i] == flag;
        if o.subtitle_track_index is Some {
            lemma_decimal_digits(o.subtitle_track_index->0 as nat);
            assert(stream_selector(o.subtitle_track_index->0)[0] == '0');
        }
        assert(subs[i].len() == 4 && subs[i][0] == '-' && subs[i][1] == 'b');
    }
}

/// With every subtitle stream carried over into a container that takes text
/// subtitles only, the subtitle codec is never a stream copy: the subtitle
/// part names the text codec, and nowhere in the vector does the subtitle
/// codec flag stand before `copy`.
pub proof fn law_text_container_never_copies_subtitles(o: &ConversionOptions, sink: &ProgressSink)
    requires
        o.subtitle_strategy == SubtitleStrategy::CopyAll,
        needs_text_subtitles(o.output_path@),
    ensures
        subtitle_args(o) == seq!["-map"@, "0:s"@, "-c:s"@, "mov_text"@],
        !has_pair(command_line(o, sink), "-c:s"@, "copy"@),
{
    let first = "-c:s"@;
    let second = "copy"@;
    let line = command_line(o, sink);
    reveal_strlit("-c:s");
    reveal_strlit("copy");
    reveal_strlit("-i");
    reveal_strlit("-c:v");
    reveal_strlit("-preset");
    reveal_strlit("-crf");
    reveal_strlit("-cq");
    reveal_strlit("-profile:v");
    reveal_strlit("-tune");
    reveal_strlit("-map");
    reveal_strlit("0:v");
    reveal_strlit("0:a");
    reveal_strlit("0:s");
    reveal_strlit("-c:a");
    reveal_strlit("-b:a");
    reveal_strlit("mov_text");
    reveal_strlit("-progress");
    reveal_strlit("-y");
    let head = seq![
        "-i"@,
        o.input_path@,
        "-c:v"@,
        o.video_codec@,
        "-preset"@,
        resolved_preset(o.video_codec@, o.preset),
    ];
    let quality = quality_args(o);
    let profile = optional_pair("-profile:v"@, o.profile);
    let tune = optional_pair("-tune"@, o.tune);
    let map = seq!["-map"@, "0:v"@];
    let audio = audio_args(o);
    let codec = audio_codec_args(o);
    let subs = subtitle_args(o);
    let closing = closing_args(o, sink);
    if o.crf is Some {
        lemma_decimal_digits(o.crf->0 as nat);
    }
    if has_pair(line, first, second) {
        lemma_pair_concat(video_args(o) + audio + subs, closing, first, second);
        if has_pair(closing, first, second) {
            let i = choose|i: int| pair_at(closing, i, first, second);
            assert(closing[0].len() == 9 && closing[2].len() == 2);
            assert(false);
        }
        assert(closing[0].len() == 9);
        lemma_pair_concat(video_args(o) + audio, subs, first, second);
        if has_pair(subs, first, second) {
            let i = choose|i: int| pair_at(subs, i, first, second);
            assert(subs[0][1] == 'm' && subs[1][0] == '0' && subs[3].len() == 8);
            assert(false);
        }
        assert(subs[0][1] == 'm');
        lemma_pair_concat(video_args(o), audio, first, second);
        if has_pair(audio, first, second) {
            let i = choose|i: int| pair_at(audio, i, first, second);
            assert(audio[0][1] == 'm');
            assert(codec[0][3] == 'a');
            if codec.len() == 4 {
                assert(codec[2][1] == 'b');
            }
            match o.audio_strategy {
                AudioStrategy::CopyAll => {
                    assert(audio[1][0] == '0' && audio[2][3] == 'a');
                },
                AudioStrategy::ConvertAll => {
                    assert(audio =~= seq!["-map"@, "0:a"@] + codec);
                    assert(audio[1][0] == '0');
                    assert(audio[2] == codec[0]);
                    if codec.len() == 4 {
                        assert(audio[4] == codec[2]);
                    }
                },
                _ => {
                    assert(audio[2] == codec[0]);
                    if codec.len() == 4 {
                        assert(audio[4] == codec[2]);
                    }
                },
            }
            assert(false);
        }
        assert(audio[0][1] == 'm');
        lemma_pair_concat(head + quality + profile + tune, map, first, second);
        assert(map[0][1] == 'm' && map[1][0] == '0');
        lemma_pair_concat(head + quality + profile, tune, first, second);
        if tune.len() > 0 {
            assert(tune[0].len() == 5);
        }
        lemma_pair_concat(head + quality, profile, first, second);
        if profile.len() > 0 {
            assert(profile[0].len() == 10);
        }
        lemma_pair_concat(head, quality, first, second);
        if quality.len() > 0 {
            assert(quality[0][2] == 'r' || quality[0].len() == 3);
            assert(crate::number::is_digit(quality[1].last()));
            assert(second.last() == 'y');
        }
        if has_pair(head, first, second) {
            let i = choose|i: int| pair_at(head, i, first, second);
            assert(head[0].len() == 2 && head[2][3] == 'v' && head[4].len() == 7);
            assert(false);
        }
        assert(false);
    }
}

} // verus!
