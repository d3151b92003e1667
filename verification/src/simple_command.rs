use vstd::prelude::*;
use crate::command::{needs_text_subtitles, output_needs_text_subtitles};
use crate::number::{decimal, decimal_text};
use crate::text::{chars_of, extend_chars, join_from, joined, rows, str_equal, string_of, texts};

verus! {

/// What is known of the film that a file holds; written into the output as tags.
#[derive(Clone, Debug)]
pub struct MovieMetadata {
    pub title: String,
    pub year: Option<u32>,
    pub overview: Option<String>,
    pub director: Option<String>,
    pub cast: Vec<String>,
    pub genre: Vec<String>,
    /// The rating as it is to be written.
    pub rating: Option<String>,
    pub poster_path: Option<String>,
}

/// A conversion by quality level: one video stream, scaled, with chosen
/// audio and subtitle tracks.
#[derive(Clone, Debug)]
pub struct ConversionConfig {
    pub input_path: String,
    pub output_path: String,
    pub format: String,
    /// `4K`, `1080p`, `720p` or `480p`.
    pub quality: String,
    /// `h264`, `h265`, `vp9` or `av1`.
    pub codec: String,
    /// `aac`, `ac3`, `mp3`, `opus` or `flac`.
    pub audio_codec: String,
    pub crf: u32,
    /// Positions among the audio streams, the first being zero.
    pub selected_audio_tracks: Vec<u32>,
    /// Positions among the subtitle streams, the first being zero.
    pub selected_subtitle_tracks: Vec<u32>,
    pub movie_metadata: Option<MovieMetadata>,
}

/// The encoder for a video codec name; the H.264 encoder for an unknown name.
pub open spec fn video_encoder(codec: Seq<char>) -> Seq<char> {
    if codec == "h265"@ {
        "libx265"@
    } else if codec == "vp9"@ {
        "libvpx-vp9"@
    } else if codec == "av1"@ {
        "libaom-av1"@
    } else {
        "libx264"@
    }
}

/// The encoder for an audio codec name; AAC for an unknown name.
pub open spec fn audio_encoder(codec: Seq<char>) -> Seq<char> {
    if codec == "ac3"@ {
        "ac3"@
    } else if codec == "mp3"@ {
        "mp3"@
    } else if codec == "opus"@ {
        "libopus"@
    } else if codec == "flac"@ {
        "flac"@
    } else {
        "aac"@
    }
}

/// The frame size for a quality level; full HD for an unknown level.
pub open spec fn frame_size(quality: Seq<char>) -> Seq<char> {
    if quality == "4K"@ {
        "3840:2160"@
    } else if quality == "720p"@ {
        "1280:720"@
    } else if quality == "480p"@ {
        "854:480"@
    } else {
        "1920:1080"@
    }
}

/// The mappings of the chosen tracks of one kind: one for each chosen
/// position that the input has, in the order chosen.
pub open spec fn track_maps(selected: Seq<u32>, count: nat, prefix: Seq<char>) -> Seq<Seq<char>>
    decreases selected.len(),
{
    if selected.len() == 0 {
        Seq::<Seq<char>>::empty()
    } else {
        let before = track_maps(selected.drop_last(), count, prefix);
        if (selected.last() as nat) < count {
            before + seq!["-map"@, prefix + decimal(selected.last() as nat)]
        } else {
            before
        }
    }
}

/// One tag argument, where the value is present.
pub open spec fn tag(key: Seq<char>, value: Option<Seq<char>>) -> Seq<Seq<char>> {
    match value {
        Some(v) => seq!["-metadata"@, key + v],
        None => seq![],
    }
}

/// The view of an optional string.
pub open spec fn text_view(v: Option<String>) -> Option<Seq<char>> {
    match v {
        Some(s) => Some(s@),
        None => None,
    }
}

/// A list of names as one text, or nothing for an empty list.
pub open spec fn name_list(names: Seq<String>) -> Option<Seq<char>> {
    if names.len() == 0 {
        None
    } else {
        Some(joined(texts(names), ", "@))
    }
}

/// The tags of a film.
pub open spec fn metadata_args(m: Option<MovieMetadata>) -> Seq<Seq<char>> {
    match m {
        Some(m) => tag("title="@, Some(m.title@)) + tag(
            "date="@,
            match m.year {
                Some(y) => Some(decimal(y as nat)),
                None => None,
            },
        ) + tag("comment="@, text_view(m.overview)) + tag("director="@, text_view(m.director))
            + tag("rating="@, text_view(m.rating)) + tag("artist="@, name_list(m.cast@)) + tag(
            "genre="@,
            name_list(m.genre@),
        ),
        None => seq![],
    }
}

/// The subtitle codec: a copy, but the text codec where the container takes nothing else.
pub open spec fn subtitle_codec(output_path: Seq<char>) -> Seq<char> {
    if needs_text_subtitles(output_path) {
        "mov_text"@
    } else {
        "copy"@
    }
}

/// The whole argument vector of a conversion by quality level.
pub open spec fn simple_command_line(c: &ConversionConfig, audio_count: nat, subtitle_count: nat) -> Seq<
    Seq<char>,
> {
    seq!["-i"@, c.input_path@, "-map"@, "0:v:0"@] + track_maps(
        c.selected_audio_tracks@,
        audio_count,
        "0:a:"@,
    ) + track_maps(c.selected_subtitle_tracks@, subtitle_count, "0:s:"@) + seq![
        "-c:v"@,
        video_encoder(c.codec@),
        "-crf"@,
        decimal(c.crf as nat),
        "-preset"@,
        "medium"@,
        "-c:a"@,
        audio_encoder(c.audio_codec@),
        "-b:a"@,
        "128k"@,
        "-vf"@,
        "scale="@ + frame_size(c.quality@),
        "-c:s"@,
        subtitle_codec(c.output_path@),
    ] + metadata_args(c.movie_metadata) + seq!["-progress"@, "pipe:1"@, "-y"@, c.output_path@]
}

/// Chooses the encoder for a video codec name.
pub fn video_encoder_name(codec: &str) -> (out: String)
    ensures
        out@ == video_encoder(codec@),
{
    if str_equal(codec, "h265") {
        "libx265".to_owned()
    } else if str_equal(codec, "vp9") {
        "libvpx-vp9".to_owned()
    } else if str_equal(codec, "av1") {
        "libaom-av1".to_owned()
    } else {
        "libx264".to_owned()
    }
}

/// Chooses the encoder for an audio codec name.
pub fn audio_encoder_name(codec: &str) -> (out: String)
    ensures
        out@ == audio_encoder(codec@),
{
    if str_equal(codec, "ac3") {
        "ac3".to_owned()
    } else if str_equal(codec, "mp3") {
        "mp3".to_owned()
    } else if str_equal(codec, "opus") {
        "libopus".to_owned()
    } else if str_equal(codec, "flac") {
        "flac".to_owned()
    } else {
        "aac".to_owned()
    }
}

/// Chooses the frame size for a quality level.
pub fn frame_size_text(quality: &str) -> (out: String)
    ensures
        out@ == frame_size(quality@),
{
    if str_equal(quality, "4K") {
        "3840:2160".to_owned()
    } else if str_equal(quality, "720p") {
        "1280:720".to_owned()
    } else if str_equal(quality, "480p") {
        "854:480".to_owned()
    } else {
        "1920:1080".to_owned()
    }
}

fn concat(head: &str, tail: &Vec<char>) -> (out: String)
    ensures
        out@ == head@ + tail@,
{
    let mut chars = chars_of(head);
    extend_chars(&mut chars, tail);
    string_of(&chars)
}

fn push_word(args: &mut Vec<String>, value: String)
    ensures
        texts(final(args)@) == texts(old(args)@).push(value@),
{
    let ghost before = args@;
    args.push(value);
    assert(texts(args@) =~= texts(before).push(value@));
}

fn push_track_maps(args: &mut Vec<String>, selected: &Vec<u32>, count: usize, prefix: &str)
    ensures
        texts(final(args)@) == texts(old(args)@) + track_maps(selected@, count as nat, prefix@),
{
    let mut i: usize = 0;
    assert(selected@.subrange(0, 0) =~= Seq::<u32>::empty());
    assert(texts(args@) =~= texts(old(args)@) + track_maps(
        selected@.subrange(0, 0),
        count as nat,
        prefix@,
    ));
    while i < selected.len()
        invariant
            i <= selected.len(),
            texts(args@) == texts(old(args)@) + track_maps(
                selected@.subrange(0, i as int),
                count as nat,
                prefix@,
            ),
        decreases selected.len() - i,
    {
        let ghost before = selected@.subrange(0, i as int);
        let ghost after = selected@.subrange(0, i + 1);
        let ghost shown = texts(args@);
        proof {
            assert(after.drop_last() =~= before);
            assert(after.last() == selected@[i as int]);
        }
        let position: u32 = selected[i];
        if (position as usize) < count {
            push_word(args, "-map".to_owned());
            push_word(args, concat(prefix, &decimal_text(position as u64)));
            assert(texts(args@) =~= shown + seq!["-map"@, prefix@ + decimal(position as nat)]);
            assert(texts(args@) =~= texts(old(args)@) + track_maps(after, count as nat, prefix@));
        }
        i = i + 1;
    }
    assert(selected@.subrange(0, selected.len() as int) =~= selected@);
}

fn push_tag(args: &mut Vec<String>, key: &str, value: &Vec<char>)
    ensures
        texts(final(args)@) == texts(old(args)@) + tag(key@, Some(value@)),
{
    let ghost before = texts(args@);
    push_word(args, "-metadata".to_owned());
    push_word(args, concat(key, value));
    assert(texts(args@) =~= before + tag(key@, Some(value@)));
}

fn push_optional_tag(args: &mut Vec<String>, key: &str, value: &Option<String>)
    ensures
        texts(final(args)@) == texts(old(args)@) + tag(key@, text_view(*value)),
{
    match value {
        Some(v) => push_tag(args, key, &chars_of(v.as_str())),
        None => {
            assert(texts(args@) =~= texts(old(args)@) + tag(key@, text_view(*value)));
        },
    }
}

fn chars_of_each(names: &Vec<String>) -> (out: Vec<Vec<char>>)
    ensures
        rows(out@) == texts(names@),
{
    let mut out: Vec<Vec<char>> = Vec::new();
    let mut i: usize = 0;
    while i < names.len()
        invariant
            i <= names.len(),
            rows(out@) == texts(names@).subrange(0, i as int),
        decreases names.len() - i,
    {
        let ghost shown = rows(out@);
        out.push(chars_of(names[i].as_str()));
        assert(rows(out@) =~= shown.push(names@[i as int]@));
        i = i + 1;
        assert(rows(out@) =~= texts(names@).subrange(0, i as int));
    }
    assert(texts(names@).subrange(0, names.len() as int) =~= texts(names@));
    out
}

fn push_name_list(args: &mut Vec<String>, key: &str, names: &Vec<String>)
    ensures
        texts(final(args)@) == texts(old(args)@) + tag(key@, name_list(names@)),
{
    if names.len() > 0 {
        let parts = chars_of_each(names);
        assert(rows(parts@).skip(0) =~= rows(parts@));
        let list = join_from(&parts, 0, &chars_of(", "));
        push_tag(args, key, &list);
    } else {
        assert(texts(args@) =~= texts(old(args)@) + tag(key@, name_list(names@)));
    }
}

fn push_metadata(args: &mut Vec<String>, metadata: &Option<MovieMetadata>)
    ensures
        texts(final(args)@) == texts(old(args)@) + metadata_args(*metadata),
{
    match metadata {
        Some(m) => {
            push_tag(args, "title=", &chars_of(m.title.as_str()));
            let ghost a = texts(args@);
            match m.year {
                Some(y) => push_tag(args, "date=", &decimal_text(y as u64)),
                None => {
                    assert(texts(args@) =~= a + Seq::<Seq<char>>::empty());
                },
            }
            push_optional_tag(args, "comment=", &m.overview);
            push_optional_tag(args, "director=", &m.director);
            push_optional_tag(args, "rating=", &m.rating);
            push_name_list(args, "artist=", &m.cast);
            push_name_list(args, "genre=", &m.genre);
            assert(texts(args@) =~= texts(old(args)@) + metadata_args(*metadata));
        },
        None => {
            assert(texts(args@) =~= texts(old(args)@) + metadata_args(*metadata));
        },
    }
}

/// Builds the argument vector of a conversion by quality level.
/// `audio_count` and `subtitle_count` say how many streams of each kind the
/// input has: a chosen position beyond them is left out.
pub fn build_simple_args(c: &ConversionConfig, audio_count: usize, subtitle_count: usize) -> (args:
    Vec<String>)
    ensures
        texts(args@) == simple_command_line(c, audio_count as nat, subtitle_count as nat),
{
    let mut args: Vec<String> = Vec::new();
    assert(texts(args@) =~= Seq::<Seq<char>>::empty());
    push_word(&mut args, "-i".to_owned());
    push_word(&mut args, c.input_path.clone());
    push_word(&mut args, "-map".to_owned());
    push_word(&mut args, "0:v:0".to_owned());
    push_track_maps(&mut args, &c.selected_audio_tracks, audio_count, "0:a:");
    push_track_maps(&mut args, &c.selected_subtitle_tracks, subtitle_count, "0:s:");
    push_word(&mut args, "-c:v".to_owned());
    push_word(&mut args, video_encoder_name(c.codec.as_str()));
    push_word(&mut args, "-crf".to_owned());
    push_word(&mut args, string_of(&decimal_text(c.crf as u64)));
    push_word(&mut args, "-preset".to_owned());
    push_word(&mut args, "medium".to_owned());
    push_word(&mut args, "-c:a".to_owned());
    push_word(&mut args, audio_encoder_name(c.audio_codec.as_str()));
    push_word(&mut args, "-b:a".to_owned());
    push_word(&mut args, "128k".to_owned());
    push_word(&mut args, "-vf".to_owned());
    push_word(&mut args, concat("scale=", &chars_of(frame_size_text(c.quality.as_str()).as_str())));
    push_word(&mut args, "-c:s".to_owned());
    if output_needs_text_subtitles(c.output_path.as_str()) {
        push_word(&mut args, "mov_text".to_owned());
    } else {
        push_word(&mut args, "copy".to_owned());
    }
    push_metadata(&mut args, &c.movie_metadata);
    push_word(&mut args, "-progress".to_owned());
    push_word(&mut args, "pipe:1".to_owned());
    push_word(&mut args, "-y".to_owned());
    push_word(&mut args, c.output_path.clone());
    assert(texts(args@) =~= simple_command_line(c, audio_count as nat, subtitle_count as nat));
    args
}

} // verus!
