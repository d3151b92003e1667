use vstd::prelude::*;
use crate::number::{parse_milli, parse_u64, parsed_milli, parsed_u64};
use crate::text::{chars_of, rows, split, split_on, str_equal};

verus! {

/// The frame counter of a stream as the probe tool prints it.
#[derive(Clone, Debug)]
pub enum FrameCount {
    /// The field is missing.
    Absent,
    /// The field is a text, as the tool usually writes it.
    Text(String),
    /// The field is a number.
    Number(u64),
}

/// One stream as the probe tool describes it. A field is `None` where the
/// tool printed none or printed it in another shape than expected.
#[derive(Clone, Debug)]
pub struct ProbeStream {
    /// `video`, `audio`, `subtitle` or something else.
    pub codec_type: Option<String>,
    /// The absolute index of the stream in the container.
    pub index: Option<u64>,
    pub codec_name: Option<String>,
    pub width: Option<u64>,
    pub height: Option<u64>,
    pub language: Option<String>,
    pub title: Option<String>,
    pub channels: Option<u64>,
    pub sample_rate: Option<u64>,
    pub bit_rate: Option<u64>,
    pub is_default: Option<bool>,
    pub is_forced: Option<bool>,
    pub nb_frames: FrameCount,
    /// The frame rate as a rational, `numerator/denominator`.
    pub r_frame_rate: Option<String>,
}

/// The whole output of the probe tool.
#[derive(Clone, Debug)]
pub struct ProbeOutput {
    pub format_name: Option<String>,
    /// The duration in seconds as the tool writes it, a decimal text.
    pub duration: Option<String>,
    /// The streams section; `None` where the output has none.
    pub streams: Option<Vec<ProbeStream>>,
}

/// How a run of the probe tool ended.
#[derive(Clone, Debug)]
pub enum ProbeReport {
    /// The tool could not be started.
    NotStarted,
    /// The tool ran and reported failure.
    Failed,
    /// The tool's output is no structured data.
    Unreadable,
    /// The tool's output, decoded.
    Parsed(ProbeOutput),
}

/// Why a probe gave no metadata.
#[derive(Clone, Copy, Debug, PartialEq, Eq, Structural)]
pub enum ProbeError {
    ToolUnavailable,
    ExecutionFailed,
    MalformedOutput,
}

/// What the file system says of a file.
#[derive(Clone, Copy, Debug, PartialEq, Eq, Structural)]
pub struct FileInfo {
    pub size: u64,
}

/// One audio stream of a media file.
#[derive(Clone, Debug)]
pub struct AudioTrack {
    /// The absolute index of the stream in the container.
    pub index: u32,
    pub codec: String,
    pub language: Option<String>,
    pub channels: Option<u32>,
    pub sample_rate: Option<u32>,
    pub bitrate: Option<u64>,
    pub title: Option<String>,
}

/// One subtitle stream of a media file.
#[derive(Clone, Debug)]
pub struct SubtitleTrack {
    /// The absolute index of the stream in the container.
    pub index: u32,
    pub codec: String,
    pub language: Option<String>,
    pub title: Option<String>,
    pub is_default: bool,
    pub is_forced: bool,
}

/// The normalized metadata of a media file.
#[derive(Clone, Debug)]
pub struct VideoMetadata {
    /// Duration in milliseconds; `None` when unknown.
    pub duration_millis: Option<u64>,
    /// Width of the chosen video stream; zero without one.
    pub width: u64,
    /// Height of the chosen video stream; zero without one.
    pub height: u64,
    /// Container name; `unknown` when the tool names none.
    pub format: String,
    /// Codec of the chosen video stream; `unknown` without one.
    pub video_codec: String,
    pub audio_tracks: Vec<AudioTrack>,
    pub subtitle_tracks: Vec<SubtitleTrack>,
    pub size: u64,
    /// Number of video frames; `None` when unknown.
    pub total_frames: Option<u64>,
}

/// True when the stream is of the given kind.
pub open spec fn is_kind(s: ProbeStream, kind: Seq<char>) -> bool {
    s.codec_type is Some && s.codec_type->0@ == kind
}

/// A missing dimension counts as zero.
pub open spec fn dimension(d: Option<u64>) -> nat {
    match d {
        Some(n) => n as nat,
        None => 0,
    }
}

/// The pixel count of a stream.
pub open spec fn pixel_count(s: ProbeStream) -> nat {
    dimension(s.width) * dimension(s.height)
}

/// True when the stream at position `k` is the video stream to report: no
/// video stream has more pixels, and none before it has as many.
pub open spec fn is_best_video(streams: Seq<ProbeStream>, k: int) -> bool {
    &&& 0 <= k < streams.len()
    &&& is_kind(streams[k], "video"@)
    &&& forall|j: int|
        0 <= j < streams.len() && is_kind(#[trigger] streams[j], "video"@) ==> pixel_count(
            streams[j],
        ) <= pixel_count(streams[k])
    &&& forall|j: int|
        0 <= j < k && is_kind(#[trigger] streams[j], "video"@) ==> pixel_count(streams[j])
            < pixel_count(streams[k])
}

/// True when some stream is a video stream.
pub open spec fn has_video(streams: Seq<ProbeStream>) -> bool {
    exists|j: int| 0 <= j < streams.len() && is_kind(#[trigger] streams[j], "video"@)
}

/// At most one position is the best video stream.
pub proof fn law_best_video_is_unique(streams: Seq<ProbeStream>, a: int, b: int)
    requires
        is_best_video(streams, a),
        is_best_video(streams, b),
    ensures
        a == b,
{
    if a < b {
        assert(pixel_count(streams[a]) < pixel_count(streams[b]));
        assert(pixel_count(streams[b]) <= pixel_count(streams[a]));
    } else if b < a {
        assert(pixel_count(streams[b]) < pixel_count(streams[a]));
        assert(pixel_count(streams[a]) <= pixel_count(streams[b]));
    }
}

fn stream_is(s: &ProbeStream, kind: &str) -> (r: bool)
    ensures
        r == is_kind(*s, kind@),
{
    match &s.codec_type {
        Some(t) => str_equal(t.as_str(), kind),
        None => false,
    }
}

fn pixels(s: &ProbeStream) -> (r: u128)
    ensures
        r == pixel_count(*s),
{
    let w: u64 = match s.width {
        Some(n) => n,
        None => 0,
    };
    let h: u64 = match s.height {
        Some(n) => n,
        None => 0,
    };
    assert((w as nat) * (h as nat) <= u128::MAX) by (nonlinear_arith)
        requires
            w <= u64::MAX,
            h <= u64::MAX,
    ;
    (w as u128) * (h as u128)
}

/// Chooses the video stream to report: the one with the most pixels, the
/// first of them where several have as many.
pub fn select_video_stream(streams: &Vec<ProbeStream>) -> (r: Option<usize>)
    ensures
        r is Some <==> has_video(streams@),
        r is Some ==> is_best_video(streams@, r->0 as int),
{
    let mut best: Option<usize> = None;
    let mut best_pixels: u128 = 0;
    let mut i: usize = 0;
    while i < streams.len()
        invariant
            i <= streams.len(),
            best is None ==> forall|j: int| 0 <= j < i ==> !is_kind(#[trigger] streams@[j], "video"@),
            best is Some ==> {
                &&& best->0 < i
                &&& best_pixels == pixel_count(streams@[best->0 as int])
                &&& is_kind(streams@[best->0 as int], "video"@)
                &&& forall|j: int|
                    0 <= j < i && is_kind(#[trigger] streams@[j], "video"@) ==> pixel_count(
                        streams@[j],
                    ) <= best_pixels
                &&& forall|j: int|
                    0 <= j < best->0 && is_kind(#[trigger] streams@[j], "video"@) ==> pixel_count(
                        streams@[j],
                    ) < best_pixels
            },
        decreases streams.len() - i,
    {
        if stream_is(&streams[i], "video") {
            let p = pixels(&streams[i]);
            if best.is_none() || p > best_pixels {
                best = Some(i);
                best_pixels = p;
            }
        }
        i = i + 1;
    }
    best
}

/// The positions of the streams of one kind, in order.
pub open spec fn positions_of(streams: Seq<ProbeStream>, kind: Seq<char>) -> Seq<int>
    decreases streams.len(),
{
    if streams.len() == 0 {
        Seq::<int>::empty()
    } else {
        let before = positions_of(streams.drop_last(), kind);
        if is_kind(streams.last(), kind) {
            before.push(streams.len() - 1)
        } else {
            before
        }
    }
}

/// A container index, cut down to 32 bits; zero when the tool gave none.
pub open spec fn index_of(index: Option<u64>) -> u32 {
    match index {
        Some(n) => (n % 0x1_0000_0000) as u32,
        None => 0,
    }
}

/// A 64-bit count cut down to 32 bits.
pub open spec fn narrowed(value: Option<u64>) -> Option<u32> {
    match value {
        Some(n) => Some((n % 0x1_0000_0000) as u32),
        None => None,
    }
}

/// A codec name; `unknown` when the tool gave none.
pub open spec fn codec_text(name: Option<String>) -> Seq<char> {
    match name {
        Some(n) => n@,
        None => "unknown"@,
    }
}

/// True when `t` describes the audio stream `s`.
pub open spec fn describes_audio(t: AudioTrack, s: ProbeStream) -> bool {
    &&& t.index == index_of(s.index)
    &&& t.codec@ == codec_text(s.codec_name)
    &&& t.language == s.language
    &&& t.title == s.title
    &&& t.channels == narrowed(s.channels)
    &&& t.sample_rate == narrowed(s.sample_rate)
    &&& t.bitrate == s.bit_rate
}

/// True when `t` describes the subtitle stream `s`.
pub open spec fn describes_subtitle(t: SubtitleTrack, s: ProbeStream) -> bool {
    &&& t.index == index_of(s.index)
    &&& t.codec@ == codec_text(s.codec_name)
    &&& t.language == s.language
    &&& t.title == s.title
    &&& t.is_default == (s.is_default == Some(true))
    &&& t.is_forced == (s.is_forced == Some(true))
}

/// True when `tracks` describes the audio streams of `streams`, one track
/// for each, in the order of the container.
pub open spec fn audio_tracks_of(tracks: Seq<AudioTrack>, streams: Seq<ProbeStream>) -> bool {
    &&& tracks.len() == positions_of(streams, "audio"@).len()
    &&& forall|k: int| 0 <= k < tracks.len() ==> #[trigger] audio_track_at(tracks, streams, k)
}

/// True when the track at position `k` describes the `k`-th audio stream.
pub open spec fn audio_track_at(tracks: Seq<AudioTrack>, streams: Seq<ProbeStream>, k: int) -> bool {
    let at = positions_of(streams, "audio"@);
    0 <= at[k] < streams.len() && describes_audio(tracks[k], streams[at[k]])
}

/// True when `tracks` describes the subtitle streams of `streams`, one track
/// for each, in the order of the container.
pub open spec fn subtitle_tracks_of(tracks: Seq<SubtitleTrack>, streams: Seq<ProbeStream>) -> bool {
    &&& tracks.len() == positions_of(streams, "subtitle"@).len()
    &&& forall|k: int| 0 <= k < tracks.len() ==> #[trigger] subtitle_track_at(tracks, streams, k)
}

/// True when the track at position `k` describes the `k`-th subtitle stream.
pub open spec fn subtitle_track_at(tracks: Seq<SubtitleTrack>, streams: Seq<ProbeStream>, k: int) -> bool {
    let at = positions_of(streams, "subtitle"@);
    0 <= at[k] < streams.len() && describes_subtitle(tracks[k], streams[at[k]])
}

fn copy_text(value: &Option<String>) -> (r: Option<String>)
    ensures
        r == *value,
{
    match value {
        Some(s) => Some(s.clone()),
        None => None,
    }
}

fn codec_or_unknown(name: &Option<String>) -> (r: String)
    ensures
        r@ == codec_text(*name),
{
    match name {
        Some(n) => n.clone(),
        None => "unknown".to_owned(),
    }
}

fn narrow(value: Option<u64>) -> (r: Option<u32>)
    ensures
        r == narrowed(value),
{
    match value {
        Some(n) => Some((n % 0x1_0000_0000) as u32),
        None => None,
    }
}

fn container_index(index: Option<u64>) -> (r: u32)
    ensures
        r == index_of(index),
{
    match index {
        Some(n) => (n % 0x1_0000_0000) as u32,
        None => 0,
    }
}

/// Collects the audio streams, each with its absolute container index.
pub fn collect_audio_tracks(streams: &Vec<ProbeStream>) -> (tracks: Vec<AudioTrack>)
    ensures
        audio_tracks_of(tracks@, streams@),
{
    let mut tracks: Vec<AudioTrack> = Vec::new();
    let mut i: usize = 0;
    assert(streams@.subrange(0, 0) =~= Seq::<ProbeStream>::empty());
    while i < streams.len()
        invariant
            i <= streams.len(),
            audio_tracks_of(tracks@, streams@.subrange(0, i as int)),
        decreases streams.len() - i,
    {
        let s = &streams[i];
        let ghost before = streams@.subrange(0, i as int);
        let ghost after = streams@.subrange(0, i + 1);
        let ghost old_tracks = tracks@;
        proof {
            assert(after.drop_last() =~= before);
            assert(after.last() == *s);
        }
        if stream_is(s, "audio") {
            let track = AudioTrack {
                index: container_index(s.index),
                codec: codec_or_unknown(&s.codec_name),
                language: copy_text(&s.language),
                channels: narrow(s.channels),
                sample_rate: narrow(s.sample_rate),
                bitrate: s.bit_rate,
                title: copy_text(&s.title),
            };
            tracks.push(track);
            assert(tracks@.last() == track);
            proof {
                let at = positions_of(after, "audio"@);
                assert(at == positions_of(before, "audio"@).push(i as int));
                assert forall|k: int| 0 <= k < tracks@.len() implies #[trigger] audio_track_at(
                    tracks@,
                    after,
                    k,
                ) by {
                    if k < old_tracks.len() {
                        assert(audio_track_at(old_tracks, before, k));
                        assert(tracks@[k] == old_tracks[k]);
                        assert(after[at[k]] == before[at[k]]);
                    }
                }
            }
        } else {
            proof {
                let at = positions_of(after, "audio"@);
                assert(at == positions_of(before, "audio"@));
                assert forall|k: int| 0 <= k < tracks@.len() implies #[trigger] audio_track_at(
                    tracks@,
                    after,
                    k,
                ) by {
                    assert(audio_track_at(old_tracks, before, k));
                    assert(after[at[k]] == before[at[k]]);
                }
            }
        }
        i = i + 1;
        assert(streams@.subrange(0, i as int) == after);
    }
    assert(streams@.subrange(0, streams.len() as int) =~= streams@);
    tracks
}

/// Collects the subtitle streams, each with its absolute container index.
pub fn collect_subtitle_tracks(streams: &Vec<ProbeStream>) -> (tracks: Vec<SubtitleTrack>)
    ensures
        subtitle_tracks_of(tracks@, streams@),
{
    let mut tracks: Vec<SubtitleTrack> = Vec::new();
    let mut i: usize = 0;
    assert(streams@.subrange(0, 0) =~= Seq::<ProbeStream>::empty());
    while i < streams.len()
        invariant
            i <= streams.len(),
            subtitle_tracks_of(tracks@, streams@.subrange(0, i as int)),
        decreases streams.len() - i,
    {
        let s = &streams[i];
        let ghost before = streams@.subrange(0, i as int);
        let ghost after = streams@.subrange(0, i + 1);
        let ghost old_tracks = tracks@;
        proof {
            assert(after.drop_last() =~= before);
            assert(after.last() == *s);
        }
        if stream_is(s, "subtitle") {
            let is_default: bool = match s.is_default {
                Some(b) => b,
                None => false,
            };
            let is_forced: bool = match s.is_forced {
                Some(b) => b,
                None => false,
            };
            let track = SubtitleTrack {
                index: container_index(s.index),
                codec: codec_or_unknown(&s.codec_name),
                language: copy_text(&s.language),
                title: copy_text(&s.title),
                is_default,
                is_forced,
            };
            tracks.push(track);
            assert(tracks@.last() == track);
            proof {
                let at = positions_of(after, "subtitle"@);
                assert(at == positions_of(before, "subtitle"@).push(i as int));
                assert forall|k: int| 0 <= k < tracks@.len() implies #[trigger] subtitle_track_at(
                    tracks@,
                    after,
                    k,
                ) by {
                    if k < old_tracks.len() {
                        assert(subtitle_track_at(old_tracks, before, k));
                        assert(tracks@[k] == old_tracks[k]);
                        assert(after[at[k]] == before[at[k]]);
                    }
                }
            }
        } else {
            proof {
                let at = positions_of(after, "subtitle"@);
                assert(at == positions_of(before, "subtitle"@));
                assert forall|k: int| 0 <= k < tracks@.len() implies #[trigger] subtitle_track_at(
                    tracks@,
                    after,
                    k,
                ) by {
                    assert(subtitle_track_at(old_tracks, before, k));
                    assert(after[at[k]] == before[at[k]]);
                }
            }
        }
        i = i + 1;
        assert(streams@.subrange(0, i as int) == after);
    }
    assert(streams@.subrange(0, streams.len() as int) =~= streams@);
    tracks
}

/// The duration in milliseconds that the tool's duration text gives;
/// unknown where the text is missing or is no number.
pub open spec fn duration_of(duration: Option<String>) -> Option<u64> {
    match duration {
        Some(text) => parsed_milli(text@),
        None => None,
    }
}

/// The frame rate that a rational text gives: numerator and denominator,
/// the denominator above zero.
pub open spec fn parsed_rate(text: Seq<char>) -> Option<(u64, u64)> {
    let parts = split_on(text, '/');
    if parts.len() == 2 && parsed_u64(parts[0]) is Some && parsed_u64(parts[1]) is Some
        && parsed_u64(parts[1])->0 > 0 {
        Some((parsed_u64(parts[0])->0, parsed_u64(parts[1])->0))
    } else {
        None
    }
}

/// The frame count that a stream states outright.
pub open spec fn stated_frames(count: FrameCount) -> Option<u64> {
    match count {
        FrameCount::Absent => None,
        FrameCount::Text(text) => parsed_u64(text@),
        FrameCount::Number(n) => Some(n),
    }
}

/// The frame count derived from duration and frame rate, rounded down;
/// unknown where either is unknown or the count does not fit.
pub open spec fn derived_frames(duration_millis: Option<u64>, rate: Option<String>) -> Option<u64> {
    if duration_millis is Some && rate is Some && parsed_rate(rate->0@) is Some {
        let (num, den) = parsed_rate(rate->0@)->0;
        let frames = (duration_millis->0 as nat) * (num as nat) / ((den as nat) * 1000);
        if frames <= u64::MAX {
            Some(frames as u64)
        } else {
            None
        }
    } else {
        None
    }
}

/// The frame count of one stream: the stated one where there is one, else the derived one.
pub open spec fn frames_of(s: ProbeStream, duration_millis: Option<u64>) -> Option<u64> {
    match stated_frames(s.nb_frames) {
        Some(n) => Some(n),
        None => derived_frames(duration_millis, s.r_frame_rate),
    }
}

/// The position of the first video stream; the number of streams where there is none.
pub open spec fn first_video(streams: Seq<ProbeStream>) -> nat
    decreases streams.len(),
{
    if streams.len() == 0 || is_kind(streams[0], "video"@) {
        0
    } else {
        1 + first_video(streams.drop_first())
    }
}

/// The total frame count of a file: that of its first video stream.
pub open spec fn total_frames_of(streams: Seq<ProbeStream>, duration_millis: Option<u64>) -> Option<
    u64,
> {
    let k = first_video(streams) as int;
    if k < streams.len() {
        frames_of(streams[k], duration_millis)
    } else {
        None
    }
}

/// `first_video` is the position of the first video stream, or the number of streams.
pub proof fn lemma_first_video(streams: Seq<ProbeStream>, k: int)
    requires
        0 <= k <= streams.len(),
        forall|j: int| 0 <= j < k ==> !is_kind(#[trigger] streams[j], "video"@),
        k < streams.len() ==> is_kind(streams[k], "video"@),
    ensures
        first_video(streams) == k,
    decreases k,
{
    if k > 0 {
        let rest = streams.drop_first();
        assert forall|j: int| 0 <= j < k - 1 implies !is_kind(#[trigger] rest[j], "video"@) by {
            assert(rest[j] == streams[j + 1]);
        }
        lemma_first_video(rest, k - 1);
    }
}

/// The position of the video stream to report.
pub open spec fn best_video(streams: Seq<ProbeStream>) -> int {
    choose|k: int| is_best_video(streams, k)
}

/// Reads a frame rate written as `numerator/denominator`.
pub fn parse_rate(text: &str) -> (r: Option<(u64, u64)>)
    ensures
        r == parsed_rate(text@),
{
    let chars = chars_of(text);
    let parts = split(&chars, '/');
    if parts.len() != 2 {
        return None;
    }
    assert(rows(parts@)[0] == parts@[0]@ && rows(parts@)[1] == parts@[1]@);
    match (parse_u64(&parts[0]), parse_u64(&parts[1])) {
        (Some(num), Some(den)) => {
            if den > 0 {
                Some((num, den))
            } else {
                None
            }
        },
        _ => None,
    }
}

/// Resolves the frame count of one stream.
pub fn stream_frames(s: &ProbeStream, duration_millis: Option<u64>) -> (r: Option<u64>)
    ensures
        r == frames_of(*s, duration_millis),
{
    let stated: Option<u64> = match &s.nb_frames {
        FrameCount::Absent => None,
        FrameCount::Text(text) => parse_u64(&chars_of(text.as_str())),
        FrameCount::Number(n) => Some(*n),
    };
    if stated.is_some() {
        return stated;
    }
    match (duration_millis, &s.r_frame_rate) {
        (Some(d), Some(rate)) => {
            match parse_rate(rate.as_str()) {
                Some((num, den)) => {
                    assert((d as nat) * (num as nat) <= u128::MAX) by (nonlinear_arith)
                        requires
                            d <= u64::MAX,
                            num <= u64::MAX,
                    ;
                    let frames: u128 = (d as u128) * (num as u128) / ((den as u128) * 1000u128);
                    if frames <= u64::MAX as u128 {
                        Some(frames as u64)
                    } else {
                        None
                    }
                },
                None => None,
            }
        },
        _ => None,
    }
}

/// Resolves the total frame count of a file from its first video stream.
pub fn total_frames(streams: &Vec<ProbeStream>, duration_millis: Option<u64>) -> (r: Option<u64>)
    ensures
        r == total_frames_of(streams@, duration_millis),
{
    let mut k: usize = 0;
    while k < streams.len() && !stream_is(&streams[k], "video")
        invariant
            k <= streams.len(),
            forall|j: int| 0 <= j < k ==> !is_kind(#[trigger] streams@[j], "video"@),
        decreases streams.len() - k,
    {
        k = k + 1;
    }
    proof {
        lemma_first_video(streams@, k as int);
    }
    if k < streams.len() {
        stream_frames(&streams[k], duration_millis)
    } else {
        None
    }
}

/// True when `md` is the metadata of a file whose probe output is `out`,
/// with the streams `streams`, and whose size is that of `file`.
pub open spec fn is_metadata_of(
    md: VideoMetadata,
    out: ProbeOutput,
    streams: Seq<ProbeStream>,
    file: FileInfo,
) -> bool {
    &&& md.size == file.size
    &&& md.format@ == codec_text(out.format_name)
    &&& md.duration_millis == duration_of(out.duration)
    &&& md.total_frames == total_frames_of(streams, md.duration_millis)
    &&& audio_tracks_of(md.audio_tracks@, streams)
    &&& subtitle_tracks_of(md.subtitle_tracks@, streams)
    &&& if has_video(streams) {
        let chosen = streams[best_video(streams)];
        &&& is_best_video(streams, best_video(streams))
        &&& md.width == dimension(chosen.width)
        &&& md.height == dimension(chosen.height)
        &&& md.video_codec@ == codec_text(chosen.codec_name)
    } else {
        &&& md.width == 0
        &&& md.height == 0
        &&& md.video_codec@ == "unknown"@
    }
}

/// Builds the metadata of a file from the decoded probe output.
pub fn build_metadata(out: &ProbeOutput, streams: &Vec<ProbeStream>, file: FileInfo) -> (md:
    VideoMetadata)
    ensures
        is_metadata_of(md, *out, streams@, file),
{
    let duration_millis: Option<u64> = match &out.duration {
        Some(text) => parse_milli(&chars_of(text.as_str())),
        None => None,
    };
    let mut width: u64 = 0;
    let mut height: u64 = 0;
    let mut video_codec: String = "unknown".to_owned();
    match select_video_stream(streams) {
        Some(k) => {
            proof {
                law_best_video_is_unique(streams@, k as int, best_video(streams@));
            }
            let chosen = &streams[k];
            width =
            match chosen.width {
                Some(n) => n,
                None => 0,
            };
            height =
            match chosen.height {
                Some(n) => n,
                None => 0,
            };
            video_codec = codec_or_unknown(&chosen.codec_name);
        },
        None => {},
    }
    VideoMetadata {
        duration_millis,
        width,
        height,
        format: codec_or_unknown(&out.format_name),
        video_codec,
        audio_tracks: collect_audio_tracks(streams),
        subtitle_tracks: collect_subtitle_tracks(streams),
        size: file.size,
        total_frames: total_frames(streams, duration_millis),
    }
}

/// The error that a probe report leads to, if any: an absent tool, a failed
/// run, or output that is no structured data or lacks its streams section.
pub open spec fn probe_failure(report: ProbeReport) -> Option<ProbeError> {
    match report {
        ProbeReport::NotStarted => Some(ProbeError::ToolUnavailable),
        ProbeReport::Failed => Some(ProbeError::ExecutionFailed),
        ProbeReport::Unreadable => Some(ProbeError::MalformedOutput),
        ProbeReport::Parsed(out) => if out.streams is None {
            Some(ProbeError::MalformedOutput)
        } else {
            None
        },
    }
}

/// Turns the report of a probe run into the metadata of the file.
pub fn extract_metadata(report: &ProbeReport, file: FileInfo) -> (r: Result<
    VideoMetadata,
    ProbeError,
>)
    ensures
        match probe_failure(*report) {
            Some(e) => r is Err && r->Err_0 == e,
            None => r is Ok && report is Parsed && is_metadata_of(
                r->Ok_0,
                report->Parsed_0,
                report->Parsed_0.streams->0@,
                file,
            ),
        },
{
    match report {
        ProbeReport::NotStarted => Err(ProbeError::ToolUnavailable),
        ProbeReport::Failed => Err(ProbeError::ExecutionFailed),
        ProbeReport::Unreadable => Err(ProbeError::MalformedOutput),
        ProbeReport::Parsed(out) => {
            match &out.streams {
                Some(streams) => Ok(build_metadata(out, streams, file)),
                None => Err(ProbeError::MalformedOutput),
            }
        },
    }
}

/// Where a file has video streams, the metadata reports the width, height
/// and codec of the one with the most pixels: no video stream has more, and
/// none before it has as many.
pub proof fn law_reported_video_has_most_pixels(
    md: VideoMetadata,
    out: ProbeOutput,
    streams: Seq<ProbeStream>,
    file: FileInfo,
    j: int,
)
    requires
        is_metadata_of(md, out, streams, file),
        0 <= j < streams.len(),
        is_kind(streams[j], "video"@),
    ensures
        pixel_count(streams[j]) <= md.width * md.height,
        j < best_video(streams) ==> pixel_count(streams[j]) < md.width * md.height,
        md.video_codec@ == codec_text(streams[best_video(streams)].codec_name),
{
    assert(has_video(streams));
}

/// A rough frame count for a file of which only the duration is known:
/// twenty-five frames for each second, zero for an unknown duration.
pub open spec fn estimated_frames(duration_millis: Option<u64>) -> nat {
    match duration_millis {
        Some(d) => (d as nat) * 25 / 1000,
        None => 0,
    }
}

/// Estimates the frame count from the duration alone.
pub fn estimate_total_frames(duration_millis: Option<u64>) -> (frames: u64)
    ensures
        frames == estimated_frames(duration_millis),
{
    match duration_millis {
        Some(d) => ((d as u128) * 25u128 / 1000u128) as u64,
        None => 0,
    }
}

} // verus!
