use transcode_supervisor::formats::{
    common_output_formats, get_format_extensions, parse_format_line, parse_formats_output,
};
use transcode_supervisor::probe::{
    estimate_total_frames, extract_metadata, parse_rate, select_video_stream, FileInfo, FrameCount, ProbeError,
    ProbeOutput, ProbeReport, ProbeStream,
};
use transcode_supervisor::supervisor::{
    failure_message, CancelError, ConversionManager, JobState, Outcome, TerminationStep,
    GRACE_PERIOD_MS,
};

fn stream(kind: &str, index: u64) -> ProbeStream {
    ProbeStream {
        codec_type: Some(kind.to_string()),
        index: Some(index),
        codec_name: None,
        width: None,
        height: None,
        language: None,
        title: None,
        channels: None,
        sample_rate: None,
        bit_rate: None,
        is_default: None,
        is_forced: None,
        nb_frames: FrameCount::Absent,
        r_frame_rate: None,
    }
}

fn video(index: u64, codec: &str, width: u64, height: u64) -> ProbeStream {
    let mut s = stream("video", index);
    s.codec_name = Some(codec.to_string());
    s.width = Some(width);
    s.height = Some(height);
    s
}

fn parsed(streams: Vec<ProbeStream>, duration: Option<&str>) -> ProbeReport {
    ProbeReport::Parsed(ProbeOutput {
        format_name: Some("matroska,webm".to_string()),
        duration: duration.map(|d| d.to_string()),
        streams: Some(streams),
    })
}

#[test]
fn largest_video_stream_is_reported() {
    let streams = vec![
        video(0, "mjpeg", 320, 240),
        stream("audio", 1),
        video(2, "hevc", 3840, 2160),
        video(3, "h264", 1920, 1080),
    ];
    assert_eq!(select_video_stream(&streams), Some(2));
    let md = extract_metadata(&parsed(streams, Some("10.0")), FileInfo { size: 77 }).unwrap();
    assert_eq!((md.width, md.height), (3840, 2160));
    assert_eq!(md.video_codec, "hevc");
    assert_eq!(md.size, 77);
    assert_eq!(md.format, "matroska,webm");
}

#[test]
fn equal_video_streams_resolve_to_the_first() {
    let streams = vec![video(0, "h264", 1920, 1080), video(1, "hevc", 1080, 1920)];
    assert_eq!(select_video_stream(&streams), Some(0));
    let none: Vec<ProbeStream> = vec![stream("audio", 0)];
    assert_eq!(select_video_stream(&none), None);
}

#[test]
fn file_without_video_has_unknown_codec() {
    let md = extract_metadata(&parsed(vec![stream("audio", 0)], None), FileInfo { size: 1 }).unwrap();
    assert_eq!((md.width, md.height), (0, 0));
    assert_eq!(md.video_codec, "unknown");
    assert_eq!(md.duration_millis, None);
    assert_eq!(md.total_frames, None);
}

#[test]
fn tracks_keep_their_container_index() {
    let mut a = stream("audio", 1);
    a.codec_name = Some("aac".to_string());
    a.language = Some("fra".to_string());
    a.channels = Some(6);
    a.sample_rate = Some(48_000);
    a.bit_rate = Some(384_000);
    a.title = Some("Surround".to_string());
    let mut s = stream("subtitle", 4);
    s.codec_name = Some("subrip".to_string());
    s.is_default = Some(true);
    let mut s2 = stream("subtitle", 5);
    s2.is_forced = Some(true);
    let streams = vec![video(0, "h264", 1280, 720), a, stream("data", 2), stream("audio", 3), s, s2];
    let md = extract_metadata(&parsed(streams, Some("1.5")), FileInfo { size: 0 }).unwrap();
    assert_eq!(md.audio_tracks.len(), 2);
    assert_eq!(md.audio_tracks[0].index, 1);
    assert_eq!(md.audio_tracks[0].codec, "aac");
    assert_eq!(md.audio_tracks[0].language.as_deref(), Some("fra"));
    assert_eq!(md.audio_tracks[0].channels, Some(6));
    assert_eq!(md.audio_tracks[0].sample_rate, Some(48_000));
    assert_eq!(md.audio_tracks[0].bitrate, Some(384_000));
    assert_eq!(md.audio_tracks[0].title.as_deref(), Some("Surround"));
    assert_eq!(md.audio_tracks[1].index, 3);
    assert_eq!(md.audio_tracks[1].codec, "unknown");
    assert_eq!(md.subtitle_tracks.len(), 2);
    assert_eq!(md.subtitle_tracks[0].index, 4);
    assert_eq!(md.subtitle_tracks[0].codec, "subrip");
    assert!(md.subtitle_tracks[0].is_default && !md.subtitle_tracks[0].is_forced);
    assert_eq!(md.subtitle_tracks[1].index, 5);
    assert!(!md.subtitle_tracks[1].is_default && md.subtitle_tracks[1].is_forced);
    assert_eq!(md.duration_millis, Some(1_500));
}

#[test]
fn frame_count_resolution_order() {
    let mut stated = video(0, "h264", 10, 10);
    stated.nb_frames = FrameCount::Text("240".to_string());
    stated.r_frame_rate = Some("25/1".to_string());
    let md = extract_metadata(&parsed(vec![stated], Some("10.0")), FileInfo { size: 0 }).unwrap();
    assert_eq!(md.total_frames, Some(240));

    let mut number = video(0, "h264", 10, 10);
    number.nb_frames = FrameCount::Number(99);
    let md = extract_metadata(&parsed(vec![number], Some("10.0")), FileInfo { size: 0 }).unwrap();
    assert_eq!(md.total_frames, Some(99));

    let mut derived = video(0, "h264", 10, 10);
    derived.nb_frames = FrameCount::Text("".to_string());
    derived.r_frame_rate = Some("30000/1001".to_string());
    let md = extract_metadata(&parsed(vec![derived.clone()], Some("10.0")), FileInfo { size: 0 }).unwrap();
    assert_eq!(md.total_frames, Some(299));

    let md = extract_metadata(&parsed(vec![derived], Some("")), FileInfo { size: 0 }).unwrap();
    assert_eq!(md.duration_millis, None);
    assert_eq!(md.total_frames, None);

    let mut zero_rate = video(0, "h264", 10, 10);
    zero_rate.r_frame_rate = Some("0/0".to_string());
    let md = extract_metadata(&parsed(vec![zero_rate], Some("10.0")), FileInfo { size: 0 }).unwrap();
    assert_eq!(md.total_frames, None);
}

#[test]
fn frame_rate_texts() {
    assert_eq!(parse_rate("24/1"), Some((24, 1)));
    assert_eq!(parse_rate("30000/1001"), Some((30000, 1001)));
    assert_eq!(parse_rate("24"), None);
    assert_eq!(parse_rate("24/0"), None);
    assert_eq!(parse_rate("1/2/3"), None);
    assert_eq!(parse_rate("a/b"), None);
}

#[test]
fn probe_errors() {
    let file = FileInfo { size: 0 };
    assert_eq!(extract_metadata(&ProbeReport::NotStarted, file).unwrap_err(), ProbeError::ToolUnavailable);
    assert_eq!(extract_metadata(&ProbeReport::Failed, file).unwrap_err(), ProbeError::ExecutionFailed);
    assert_eq!(extract_metadata(&ProbeReport::Unreadable, file).unwrap_err(), ProbeError::MalformedOutput);
    let no_streams = ProbeReport::Parsed(ProbeOutput { format_name: None, duration: None, streams: None });
    assert_eq!(extract_metadata(&no_streams, file).unwrap_err(), ProbeError::MalformedOutput);
    let empty = ProbeReport::Parsed(ProbeOutput { format_name: None, duration: None, streams: Some(vec![]) });
    let md = extract_metadata(&empty, file).unwrap();
    assert_eq!(md.format, "unknown");
}

#[test]
fn cancelling_an_unknown_job_is_refused() {
    let mut m = ConversionManager::new();
    m.register("a".to_string(), 10);
    let r = m.cancel_conversion("b", true);
    assert_eq!(r, Err(CancelError::NotFound));
    assert_eq!(m.lookup("a"), Some(JobState { pid: 10, cancel_requested: false }));
    assert_eq!(m.lookup("b"), None);
}

#[test]
fn cancelling_a_running_job_plans_termination() {
    let mut m = ConversionManager::new();
    m.register("a".to_string(), 10);
    m.register("b".to_string(), 20);
    let steps = m.cancel_conversion("b", true).unwrap();
    assert_eq!(
        steps,
        vec![
            TerminationStep::Graceful(20),
            TerminationStep::Wait(GRACE_PERIOD_MS),
            TerminationStep::Forced(20)
        ]
    );
    assert_eq!(GRACE_PERIOD_MS, 500);
    assert_eq!(m.lookup("b"), Some(JobState { pid: 20, cancel_requested: true }));
    let forced = m.cancel_conversion("a", false).unwrap();
    assert_eq!(forced, vec![TerminationStep::Forced(10)]);
}

#[test]
fn cancelled_job_ends_as_cancelled_and_leaves_the_table() {
    let mut m = ConversionManager::new();
    m.register("a".to_string(), 10);
    m.cancel_conversion("a", true).unwrap();
    let r = m.conclude("a", Some(255), "out.mkv", "killed", 1_234);
    assert_eq!(r.outcome, Outcome::Cancelled);
    assert!(!r.success);
    assert_eq!(r.output_path, None);
    assert_eq!(r.error.as_deref(), Some("Conversion stopped by user"));
    assert_eq!(r.duration_millis, 1_234);
    assert_eq!(m.lookup("a"), None);
    assert_eq!(m.cancel_conversion("a", true), Err(CancelError::NotFound));
}

#[test]
fn job_results() {
    let mut m = ConversionManager::new();
    m.register("a".to_string(), 10);
    let ok = m.conclude("a", Some(0), "out.mkv", "", 5);
    assert!(ok.success);
    assert_eq!(ok.outcome, Outcome::Completed);
    assert_eq!(ok.output_path.as_deref(), Some("out.mkv"));
    assert_eq!(ok.error, None);
    assert_eq!(m.lookup("a"), None);

    m.register("b".to_string(), 11);
    let bad = m.conclude("b", Some(1), "out.mkv", "Invalid data", 5);
    assert_eq!(bad.outcome, Outcome::Failed(1));
    assert!(!bad.success);
    assert_eq!(bad.error.as_deref(), Some("FFmpeg exited with error code: 1: Invalid data"));

    let signalled = m.conclude("c", None, "out.mkv", "", 5);
    assert_eq!(signalled.outcome, Outcome::Failed(-1));
    assert_eq!(signalled.error.as_deref(), Some("FFmpeg exited with error code: -1"));
}

#[test]
fn registering_again_replaces_and_remove_clears() {
    let mut m = ConversionManager::new();
    m.register("a".to_string(), 10);
    m.register("a".to_string(), 11);
    assert_eq!(m.lookup("a"), Some(JobState { pid: 11, cancel_requested: false }));
    m.remove("a");
    assert_eq!(m.lookup("a"), None);
    m.remove("a");
    assert_eq!(m.lookup("a"), None);
}

#[test]
fn failure_messages() {
    assert_eq!(failure_message(-2147483648, ""), "FFmpeg exited with error code: -2147483648");
    assert_eq!(failure_message(2147483647, "x"), "FFmpeg exited with error code: 2147483647: x");
}

#[test]
fn format_extensions() {
    assert_eq!(get_format_extensions("MP4"), vec!["mp4"]);
    assert_eq!(get_format_extensions("xvid"), vec!["avi"]);
    assert_eq!(get_format_extensions("hevc"), vec!["mp4", "mkv"]);
    assert_eq!(get_format_extensions("VP9"), vec!["webm"]);
    assert_eq!(get_format_extensions("Matroska"), vec!["Matroska"]);
}

#[test]
fn format_lines() {
    let f = parse_format_line("DE  mp4   MP4 (MPEG-4 Part 14)").unwrap();
    assert_eq!(f.name, "mp4");
    assert_eq!(f.description, "MP4 (MPEG-4 Part 14)");
    assert_eq!(f.extensions, vec!["mp4"]);
    assert!(parse_format_line("DE mp4").is_none());
    assert!(parse_format_line("").is_none());
}

#[test]
fn format_listing() {
    let listing = "DE  early   Before the heading\nFormats:\n D. = Demuxing supported\n .E = Muxing supported\n ---\n DE  matroska  Matroska\n  E  mp4       MP4 (MPEG-4 Part 14)\n D   aac       raw ADTS AAC\n\n DE  avi       AVI (Audio Video Interleaved)\n DE short\n";
    let formats = parse_formats_output(listing);
    let names: Vec<&str> = formats.iter().map(|f| f.name.as_str()).collect();
    assert_eq!(names, vec!["matroska", "avi"]);
    assert_eq!(formats[1].description, "AVI (Audio Video Interleaved)");
    assert_eq!(formats[0].extensions, vec!["matroska"]);
}

#[test]
fn formats_offered_without_the_tool() {
    let formats = common_output_formats();
    let names: Vec<&str> = formats.iter().map(|f| f.name.as_str()).collect();
    assert_eq!(names, vec!["mp4", "mkv", "avi", "mov", "webm"]);
    assert_eq!(formats[0].description, "MP4 (MPEG-4 Part 14)");
    assert_eq!(formats[4].extensions, vec!["webm"]);
}

#[test]
fn frame_estimate_from_duration() {
    assert_eq!(estimate_total_frames(Some(10_000)), 250);
    assert_eq!(estimate_total_frames(Some(1_999)), 49);
    assert_eq!(estimate_total_frames(None), 0);
    assert_eq!(estimate_total_frames(Some(u64::MAX)), 461_168_601_842_738_790);
}
