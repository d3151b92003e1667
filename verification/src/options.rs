use vstd::prelude::*;
use crate::text::str_equal;

verus! {

/// How the audio streams of the input are carried into the output.
#[derive(Clone, Copy, Debug, PartialEq, Eq, Structural)]
pub enum AudioStrategy {
    /// Every audio stream, copied without re-encoding.
    CopyAll,
    /// Every audio stream, re-encoded with the requested codec.
    ConvertAll,
    /// The first audio stream, unless an index is given.
    FirstTrack,
    /// The audio stream with the given container index.
    ExplicitIndex,
}

/// How the subtitle streams of the input are carried into the output.
#[derive(Clone, Copy, Debug, PartialEq, Eq, Structural)]
pub enum SubtitleStrategy {
    /// Every subtitle stream.
    CopyAll,
    /// One subtitle stream rendered for the output, chosen by index.
    BurnIn,
    /// No subtitle output at all.
    Ignore,
    /// The subtitle stream with the given container index.
    ExplicitIndex,
}

/// Where the transcoding tool writes its machine-readable progress.
#[derive(Clone, Debug)]
pub enum ProgressSink {
    /// The tool's standard output.
    Pipe,
    /// A sidecar file at the given path.
    Sidecar(String),
}

/// One conversion job as the caller asks for it.
#[derive(Clone, Debug)]
pub struct ConversionOptions {
    /// Caller-assigned job id, unique among the jobs in flight.
    pub id: String,
    pub input_path: String,
    pub output_path: String,
    pub video_codec: String,
    /// Container index of the audio stream to map, if one is chosen.
    pub audio_track_index: Option<u32>,
    /// Container index of the subtitle stream to map, if one is chosen.
    pub subtitle_track_index: Option<u32>,
    /// Expected duration in microseconds; zero when unknown.
    pub duration_micros: u64,
    /// Expected number of video frames, when known.
    pub total_frames: Option<u64>,
    pub audio_strategy: AudioStrategy,
    pub subtitle_strategy: SubtitleStrategy,
    /// Audio codec; `aac` when absent.
    pub audio_codec: Option<String>,
    /// Audio bitrate; `128k` when absent.
    pub audio_bitrate: Option<String>,
    pub crf: Option<u8>,
    pub preset: Option<String>,
    pub profile: Option<String>,
    pub tune: Option<String>,
}

/// The audio strategy that a strategy name stands for.
pub open spec fn audio_strategy_named(name: Option<Seq<char>>) -> AudioStrategy {
    if name == Some("copy_all"@) {
        AudioStrategy::CopyAll
    } else if name == Some("convert_all"@) {
        AudioStrategy::ConvertAll
    } else if name == Some("first_track"@) {
        AudioStrategy::FirstTrack
    } else {
        AudioStrategy::ExplicitIndex
    }
}

/// The subtitle strategy that a strategy name stands for.
pub open spec fn subtitle_strategy_named(name: Option<Seq<char>>) -> SubtitleStrategy {
    if name == Some("copy_all"@) {
        SubtitleStrategy::CopyAll
    } else if name == Some("ignore"@) {
        SubtitleStrategy::Ignore
    } else if name == Some("burn_in"@) {
        SubtitleStrategy::BurnIn
    } else {
        SubtitleStrategy::ExplicitIndex
    }
}

/// The view of an optional string slice.
pub open spec fn name_view(name: Option<&str>) -> Option<Seq<char>> {
    match name {
        Some(s) => Some(s@),
        None => None,
    }
}

impl AudioStrategy {
    /// Reads a strategy name. An absent or unknown name selects by index.
    pub fn from_name(name: Option<&str>) -> (r: AudioStrategy)
        ensures
            r == audio_strategy_named(name_view(name)),
    {
        match name {
            Some(s) => {
                if str_equal(s, "copy_all") {
                    AudioStrategy::CopyAll
                } else if str_equal(s, "convert_all") {
                    AudioStrategy::ConvertAll
                } else if str_equal(s, "first_track") {
                    AudioStrategy::FirstTrack
                } else {
                    AudioStrategy::ExplicitIndex
                }
            },
            None => AudioStrategy::ExplicitIndex,
        }
    }
}

impl SubtitleStrategy {
    /// Reads a strategy name. An absent or unknown name selects by index.
    pub fn from_name(name: Option<&str>) -> (r: SubtitleStrategy)
        ensures
            r == subtitle_strategy_named(name_view(name)),
    {
        match name {
            Some(s) => {
                if str_equal(s, "copy_all") {
                    SubtitleStrategy::CopyAll
                } else if str_equal(s, "ignore") {
                    SubtitleStrategy::Ignore
                } else if str_equal(s, "burn_in") {
                    SubtitleStrategy::BurnIn
                } else {
                    SubtitleStrategy::ExplicitIndex
                }
            },
            None => SubtitleStrategy::ExplicitIndex,
        }
    }
}

} // verus!
