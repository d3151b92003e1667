use transcode_supervisor::decode::{
    decode_probe_output, decode_stream, output_excerpt, probe, read_probe_report, stream_indices,
};
use transcode_supervisor::probe::{FileInfo, FrameCount, ProbeError, ProbeReport};
use transcode_supervisor::simple_command::{
    audio_encoder_name, build_simple_args, frame_size_text, video_encoder_name, ConversionConfig,
    MovieMetadata,
};
use transcode_supervisor::stream::{
    find, parse_clock, parse_duration_line, parse_progress_line, value_after,
};
use transcode_supervisor::supervisor::{spawn_failure, Outcome};

fn chars(s: &str) -> Vec<char> {
    s.chars().collect()
}

const PROBE_JSON: &str = r#"{
  "streams": [
    {"index": 0, "codec_name": "mjpeg", "codec_type": "video", "width": 600, "height": 900,
     "r_frame_rate": "90000/1", "disposition": {"default": false, "attached_pic": 1}},
    {"index": 1, "codec_name": "hevc", "codec_type": "video", "width": 3840, "height": 2160,
     "r_frame_rate": "24000/1001", "nb_frames": "1440"},
    {"index": 2, "codec_name": "eac3", "codec_type": "audio", "channels": 6, "sample_rate": "48000",
     "bit_rate": 640000, "tags": {"language": "eng", "title": "Main"}},
    {"index": 3, "codec_name": "subrip", "codec_type": "subtitle",
     "disposition": {"default": true, "forced": false}, "tags": {"language": "fra"}}
  ],
  "format": {"format_name": "matroska,webm", "duration": "60.060000", "bit_rate": ""}
}"#;

#[test]
fn probe_reads_the_tool_output() {
    let md = probe(true, true, PROBE_JSON, FileInfo { size: 4096 }).unwrap();
    assert_eq!(md.format, "matroska,webm");
    assert_eq!(md.duration_millis, Some(60_060));
    assert_eq!((md.width, md.height), (3840, 2160));
    assert_eq!(md.video_codec, "hevc");
    assert_eq!(md.size, 4096);
    assert_eq!(md.total_frames, Some(5_405_400));
    assert_eq!(md.audio_tracks.len(), 1);
    assert_eq!(md.audio_tracks[0].index, 2);
    assert_eq!(md.audio_tracks[0].codec, "eac3");
    assert_eq!(md.audio_tracks[0].channels, Some(6));
    assert_eq!(md.audio_tracks[0].sample_rate, None);
    assert_eq!(md.audio_tracks[0].bitrate, Some(640_000));
    assert_eq!(md.audio_tracks[0].language.as_deref(), Some("eng"));
    assert_eq!(md.audio_tracks[0].title.as_deref(), Some("Main"));
    assert_eq!(md.subtitle_tracks.len(), 1);
    assert_eq!(md.subtitle_tracks[0].index, 3);
    assert!(md.subtitle_tracks[0].is_default);
    assert!(!md.subtitle_tracks[0].is_forced);
}

#[test]
fn probe_error_for_each_kind_of_failure() {
    let file = FileInfo { size: 0 };
    assert_eq!(probe(false, false, "", file).unwrap_err(), ProbeError::ToolUnavailable);
    assert_eq!(probe(false, true, PROBE_JSON, file).unwrap_err(), ProbeError::ToolUnavailable);
    assert_eq!(probe(true, false, PROBE_JSON, file).unwrap_err(), ProbeError::ExecutionFailed);
    assert_eq!(probe(true, true, "not json", file).unwrap_err(), ProbeError::MalformedOutput);
    assert_eq!(probe(true, true, "", file).unwrap_err(), ProbeError::MalformedOutput);
    assert_eq!(probe(true, true, r#"{"format": {}}"#, file).unwrap_err(), ProbeError::MalformedOutput);
    assert_eq!(probe(true, true, r#"{"streams": 3}"#, file).unwrap_err(), ProbeError::MalformedOutput);
    assert!(probe(true, true, r#"{"streams": []}"#, file).is_ok());
}

#[test]
fn unknown_duration_is_not_zero() {
    let md = probe(true, true, r#"{"streams": [], "format": {"duration": ""}}"#, FileInfo { size: 0 }).unwrap();
    assert_eq!(md.duration_millis, None);
    let zero = probe(true, true, r#"{"streams": [], "format": {"duration": "0.000000"}}"#, FileInfo { size: 0 }).unwrap();
    assert_eq!(zero.duration_millis, Some(0));
}

#[test]
fn streams_are_decoded_field_by_field() {
    let root: serde_json::Value = serde_json::from_str(PROBE_JSON).unwrap();
    let out = decode_probe_output(&root);
    assert_eq!(out.format_name.as_deref(), Some("matroska,webm"));
    assert_eq!(out.duration.as_deref(), Some("60.060000"));
    let streams = out.streams.unwrap();
    assert_eq!(streams.len(), 4);
    assert_eq!(streams[0].codec_type.as_deref(), Some("video"));
    assert_eq!(streams[0].is_default, Some(false));
    assert_eq!(streams[0].is_forced, None);
    assert_eq!(streams[1].width, Some(3840));
    assert!(matches!(&streams[1].nb_frames, FrameCount::Text(t) if t == "1440"));
    assert!(matches!(&streams[0].nb_frames, FrameCount::Absent));
    assert_eq!(streams[2].language.as_deref(), Some("eng"));
    assert_eq!(streams[2].sample_rate, None);
    let single: serde_json::Value = serde_json::from_str(r#"{"nb_frames": 12, "index": -1}"#).unwrap();
    let s = decode_stream(&single);
    assert!(matches!(s.nb_frames, FrameCount::Number(12)));
    assert_eq!(s.index, None);
    assert_eq!(s.codec_type, None);
}

#[test]
fn reports_of_probe_runs() {
    assert!(matches!(read_probe_report(false, true, "{}"), ProbeReport::NotStarted));
    assert!(matches!(read_probe_report(true, false, "{}"), ProbeReport::Failed));
    assert!(matches!(read_probe_report(true, true, "{"), ProbeReport::Unreadable));
    assert!(matches!(read_probe_report(true, true, "{}"), ProbeReport::Parsed(_)));
}

#[test]
fn progress_line_of_the_diagnostic_stream() {
    let line = "frame=  125 fps= 25 q=28.0 size=    1024kB time=00:00:05.00 bitrate=1677.7kbits/s speed=1.2x    ";
    let s = parse_progress_line(line).unwrap();
    assert_eq!(s.frame, 125);
    assert_eq!(s.fps_milli, 25_000);
    assert_eq!(s.out_time_micros, 5_000_000);
    assert_eq!(s.bitrate, "1677.7kbits/s");
    assert_eq!(s.speed, "1.2x");
}

#[test]
fn noise_lines_are_no_samples() {
    assert!(parse_progress_line("Stream #0:0: Video: h264").is_none());
    assert!(parse_progress_line("").is_none());
    let partial = parse_progress_line("size=N/A time=N/A bitrate=N/A").unwrap();
    assert_eq!(partial.frame, 0);
    assert_eq!(partial.fps_milli, 0);
    assert_eq!(partial.out_time_micros, 0);
    assert_eq!(partial.bitrate, "N/A");
    assert_eq!(partial.speed, "");
}

#[test]
fn clock_texts() {
    assert_eq!(parse_clock(&chars("00:01:23.45")), Some(83_450));
    assert_eq!(parse_clock(&chars("01:23.45")), Some(83_450));
    assert_eq!(parse_clock(&chars("10:00:00")), Some(36_000_000));
    assert_eq!(parse_clock(&chars("23.45")), None);
    assert_eq!(parse_clock(&chars("a:b:c")), None);
    assert_eq!(parse_clock(&chars("1:2:3:4")), None);
}

#[test]
fn duration_line() {
    assert_eq!(parse_duration_line("  Duration: 00:01:23.45, start: 0.000000, bitrate: 1 kb/s"), Some(83_450));
    assert_eq!(parse_duration_line("Duration: 00:00:10.00"), Some(10_000));
    assert_eq!(parse_duration_line("  Duration: N/A, start: 0.0"), None);
    assert_eq!(parse_duration_line("time=00:00:10.00"), None);
}

#[test]
fn first_occurrence_and_following_word() {
    assert_eq!(find(&chars("abcabc"), &chars("bc")), Some(1));
    assert_eq!(find(&chars("abcabc"), &chars("")), Some(0));
    assert_eq!(find(&chars("abc"), &chars("abcd")), None);
    assert_eq!(find(&chars("abc"), &chars("x")), None);
    assert_eq!(value_after(&chars("fps= 25 q=1"), "fps="), Some(chars("25")));
    assert_eq!(value_after(&chars("fps="), "fps="), Some(chars("")));
    assert_eq!(value_after(&chars("q=1"), "fps="), None);
}

fn config() -> ConversionConfig {
    ConversionConfig {
        input_path: "in.mkv".to_string(),
        output_path: "out.mkv".to_string(),
        format: "mkv".to_string(),
        quality: "720p".to_string(),
        codec: "h265".to_string(),
        audio_codec: "opus".to_string(),
        crf: 23,
        selected_audio_tracks: vec![0, 2, 1],
        selected_subtitle_tracks: vec![1, 0],
        movie_metadata: None,
    }
}

#[test]
fn conversion_by_quality_level() {
    let args = build_simple_args(&config(), 2, 1);
    let w: Vec<&str> = args.iter().map(|s| s.as_str()).collect();
    assert_eq!(
        w,
        vec![
            "-i", "in.mkv", "-map", "0:v:0", "-map", "0:a:0", "-map", "0:a:1", "-map", "0:s:0",
            "-c:v", "libx265", "-crf", "23", "-preset", "medium", "-c:a", "libopus", "-b:a",
            "128k", "-vf", "scale=1280:720", "-c:s", "copy", "-progress", "pipe:1", "-y",
            "out.mkv"
        ]
    );
}

#[test]
fn conversion_with_tags() {
    let mut c = config();
    c.selected_audio_tracks = vec![];
    c.selected_subtitle_tracks = vec![];
    c.output_path = "out.MP4".to_string();
    c.movie_metadata = Some(MovieMetadata {
        title: "Le Film".to_string(),
        year: Some(1999),
        overview: None,
        director: Some("A. Director".to_string()),
        cast: vec!["One".to_string(), "Two".to_string(), "Three".to_string()],
        genre: vec![],
        rating: Some("7.8".to_string()),
        poster_path: None,
    });
    let args = build_simple_args(&c, 0, 0);
    let w: Vec<&str> = args.iter().map(|s| s.as_str()).collect();
    assert_eq!(
        &w[16..],
        &[
            "-c:s", "mov_text", "-metadata", "title=Le Film", "-metadata", "date=1999",
            "-metadata", "director=A. Director", "-metadata", "rating=7.8", "-metadata",
            "artist=One, Two, Three", "-progress", "pipe:1", "-y", "out.MP4"
        ]
    );
}

#[test]
fn encoder_and_size_tables() {
    assert_eq!(video_encoder_name("h264"), "libx264");
    assert_eq!(video_encoder_name("h265"), "libx265");
    assert_eq!(video_encoder_name("vp9"), "libvpx-vp9");
    assert_eq!(video_encoder_name("av1"), "libaom-av1");
    assert_eq!(video_encoder_name("???"), "libx264");
    assert_eq!(audio_encoder_name("aac"), "aac");
    assert_eq!(audio_encoder_name("ac3"), "ac3");
    assert_eq!(audio_encoder_name("mp3"), "mp3");
    assert_eq!(audio_encoder_name("opus"), "libopus");
    assert_eq!(audio_encoder_name("flac"), "flac");
    assert_eq!(audio_encoder_name("???"), "aac");
    assert_eq!(frame_size_text("4K"), "3840:2160");
    assert_eq!(frame_size_text("1080p"), "1920:1080");
    assert_eq!(frame_size_text("720p"), "1280:720");
    assert_eq!(frame_size_text("480p"), "854:480");
    assert_eq!(frame_size_text("???"), "1920:1080");
}

#[test]
fn tool_that_does_not_start() {
    let r = spawn_failure("No such file or directory", 3);
    assert!(!r.success);
    assert_eq!(r.outcome, Outcome::SpawnFailed);
    assert_eq!(
        r.error.as_deref(),
        Some("Failed to start ffmpeg: No such file or directory. Make sure ffmpeg is installed and in your PATH.")
    );
    assert_eq!(r.duration_millis, 3);
}

#[test]
fn excerpt_of_unreadable_output() {
    assert_eq!(output_excerpt("short"), "short");
    let long: String = "é".repeat(250);
    let cut = output_excerpt(&long);
    assert_eq!(cut.chars().count(), 200);
    assert_eq!(cut, "é".repeat(200));
}

#[test]
fn container_indices_of_the_streams() {
    let report = read_probe_report(true, true, r#"{"streams": [{"index": 1}, {"codec_type": "audio"}, {"index": 4}]}"#);
    assert_eq!(stream_indices(&report), Ok(vec![1, 4]));
    assert_eq!(stream_indices(&read_probe_report(true, true, "{}")), Err(ProbeError::MalformedOutput));
    assert_eq!(stream_indices(&read_probe_report(false, true, "{}")), Err(ProbeError::ToolUnavailable));
    assert_eq!(stream_indices(&read_probe_report(true, false, "{}")), Err(ProbeError::ExecutionFailed));
}
