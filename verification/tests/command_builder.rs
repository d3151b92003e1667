use transcode_supervisor::capabilities::{check_gpu_availability, GpuCapabilities};
use transcode_supervisor::command::{
    build_args, map_nvenc_preset, output_needs_text_subtitles, resolve_preset, sidecar_file_name,
    stream_selector_text,
};
use transcode_supervisor::options::{
    AudioStrategy, ConversionOptions, ProgressSink, SubtitleStrategy,
};

fn base_options() -> ConversionOptions {
    ConversionOptions {
        id: "job-1".to_string(),
        input_path: "in.mkv".to_string(),
        output_path: "out.mkv".to_string(),
        video_codec: "libx264".to_string(),
        audio_track_index: None,
        subtitle_track_index: None,
        duration_micros: 0,
        total_frames: None,
        audio_strategy: AudioStrategy::CopyAll,
        subtitle_strategy: SubtitleStrategy::Ignore,
        audio_codec: None,
        audio_bitrate: None,
        crf: None,
        preset: None,
        profile: None,
        tune: None,
    }
}

fn no_gpu() -> GpuCapabilities {
    check_gpu_availability(None)
}

fn words(args: &[String]) -> Vec<&str> {
    args.iter().map(|s| s.as_str()).collect()
}

#[test]
fn software_encoder_with_defaults() {
    let args = build_args(&base_options(), &no_gpu(), &ProgressSink::Pipe);
    assert_eq!(
        words(&args),
        vec![
            "-i", "in.mkv", "-c:v", "libx264", "-preset", "fast", "-map", "0:v", "-map", "0:a",
            "-c:a", "copy", "-sn", "-progress", "pipe:1", "-y", "out.mkv"
        ]
    );
}

#[test]
fn output_path_is_the_last_argument() {
    let mut o = base_options();
    o.output_path = "/tmp/some dir/result.mp4".to_string();
    let sink = ProgressSink::Sidecar("/tmp/ffmpeg_progress_job-1.txt".to_string());
    let args = build_args(&o, &no_gpu(), &sink);
    let n = args.len();
    assert_eq!(args[n - 1], "/tmp/some dir/result.mp4");
    assert_eq!(args[n - 2], "-y");
    assert_eq!(args[n - 3], "/tmp/ffmpeg_progress_job-1.txt");
    assert_eq!(args[n - 4], "-progress");
}

#[test]
fn crf_only_for_software_encoder() {
    let mut o = base_options();
    o.crf = Some(23);
    let args = build_args(&o, &no_gpu(), &ProgressSink::Pipe);
    let w = words(&args);
    assert_eq!(&w[4..8], &["-preset", "fast", "-crf", "23"]);
    assert!(!w.contains(&"-cq"));
}

#[test]
fn constant_quality_only_for_hardware_encoder() {
    let mut o = base_options();
    o.video_codec = "hevc_nvenc".to_string();
    o.crf = Some(19);
    let args = build_args(&o, &no_gpu(), &ProgressSink::Pipe);
    let w = words(&args);
    assert_eq!(&w[4..8], &["-preset", "p4", "-cq", "19"]);
    assert!(!w.contains(&"-crf"));
}

#[test]
fn no_quality_flag_for_other_encoders() {
    let mut o = base_options();
    o.video_codec = "libvpx-vp9".to_string();
    o.crf = Some(30);
    let args = build_args(&o, &no_gpu(), &ProgressSink::Pipe);
    let w = words(&args);
    assert!(!w.contains(&"-crf"));
    assert!(!w.contains(&"-cq"));
}

#[test]
fn hardware_preset_table() {
    assert_eq!(map_nvenc_preset("ultrafast"), "p1");
    assert_eq!(map_nvenc_preset("superfast"), "p2");
    assert_eq!(map_nvenc_preset("veryfast"), "p3");
    assert_eq!(map_nvenc_preset("faster"), "p3");
    assert_eq!(map_nvenc_preset("fast"), "p4");
    assert_eq!(map_nvenc_preset("medium"), "p4");
    assert_eq!(map_nvenc_preset("slow"), "p5");
    assert_eq!(map_nvenc_preset("slower"), "p6");
    assert_eq!(map_nvenc_preset("veryslow"), "p7");
    assert_eq!(map_nvenc_preset("p6"), "p6");
    assert_eq!(map_nvenc_preset("hq"), "hq");
}

#[test]
fn preset_resolution() {
    assert_eq!(resolve_preset("h264_nvenc", &None), "p4");
    assert_eq!(resolve_preset("h264_nvenc", &Some("slow".to_string())), "p5");
    assert_eq!(resolve_preset("libx265", &None), "fast");
    assert_eq!(resolve_preset("libx265", &Some("slow".to_string())), "slow");
}

#[test]
fn profile_and_tune_follow_quality() {
    let mut o = base_options();
    o.crf = Some(20);
    o.profile = Some("high".to_string());
    o.tune = Some("film".to_string());
    let args = build_args(&o, &no_gpu(), &ProgressSink::Pipe);
    let w = words(&args);
    assert_eq!(
        &w[6..14],
        &["-crf", "20", "-profile:v", "high", "-tune", "film", "-map", "0:v"]
    );
}

#[test]
fn convert_all_with_stream_copy_has_no_audio_bitrate() {
    let mut o = base_options();
    o.audio_strategy = AudioStrategy::ConvertAll;
    o.audio_codec = Some("copy".to_string());
    o.audio_bitrate = Some("192k".to_string());
    let args = build_args(&o, &no_gpu(), &ProgressSink::Pipe);
    let w = words(&args);
    assert!(!w.contains(&"-b:a"));
    assert_eq!(&w[8..12], &["-map", "0:a", "-c:a", "copy"]);
}

#[test]
fn convert_all_re_encodes_with_bitrate() {
    let mut o = base_options();
    o.audio_strategy = AudioStrategy::ConvertAll;
    o.audio_codec = Some("ac3".to_string());
    o.audio_bitrate = Some("192k".to_string());
    let args = build_args(&o, &no_gpu(), &ProgressSink::Pipe);
    let w = words(&args);
    assert_eq!(&w[8..14], &["-map", "0:a", "-c:a", "ac3", "-b:a", "192k"]);
}

#[test]
fn convert_all_defaults_to_aac_128k() {
    let mut o = base_options();
    o.audio_strategy = AudioStrategy::ConvertAll;
    let args = build_args(&o, &no_gpu(), &ProgressSink::Pipe);
    let w = words(&args);
    assert_eq!(&w[8..14], &["-map", "0:a", "-c:a", "aac", "-b:a", "128k"]);
}

#[test]
fn explicit_audio_index_is_the_container_index() {
    let mut o = base_options();
    o.audio_strategy = AudioStrategy::ExplicitIndex;
    o.audio_track_index = Some(3);
    let args = build_args(&o, &no_gpu(), &ProgressSink::Pipe);
    let w = words(&args);
    assert_eq!(&w[8..14], &["-map", "0:3", "-c:a", "aac", "-b:a", "128k"]);
}

#[test]
fn first_track_without_index_maps_first_audio_stream() {
    let mut o = base_options();
    o.audio_strategy = AudioStrategy::FirstTrack;
    let args = build_args(&o, &no_gpu(), &ProgressSink::Pipe);
    let w = words(&args);
    assert_eq!(&w[8..10], &["-map", "0:a:0"]);
}

#[test]
fn copy_all_subtitles_into_mp4_uses_text_codec() {
    let mut o = base_options();
    o.subtitle_strategy = SubtitleStrategy::CopyAll;
    o.output_path = "Movie.MP4".to_string();
    let args = build_args(&o, &no_gpu(), &ProgressSink::Pipe);
    let w = words(&args);
    assert_eq!(&w[12..16], &["-map", "0:s", "-c:s", "mov_text"]);
    for i in 0..w.len() - 1 {
        assert!(!(w[i] == "-c:s" && w[i + 1] == "copy"));
    }
}

#[test]
fn copy_all_subtitles_into_mkv_copies() {
    let mut o = base_options();
    o.subtitle_strategy = SubtitleStrategy::CopyAll;
    let args = build_args(&o, &no_gpu(), &ProgressSink::Pipe);
    let w = words(&args);
    assert_eq!(&w[12..16], &["-map", "0:s", "-c:s", "copy"]);
}

#[test]
fn explicit_subtitle_index() {
    let mut o = base_options();
    o.subtitle_strategy = SubtitleStrategy::ExplicitIndex;
    o.subtitle_track_index = Some(12);
    let args = build_args(&o, &no_gpu(), &ProgressSink::Pipe);
    let w = words(&args);
    assert_eq!(&w[12..16], &["-map", "0:12", "-c:s", "mov_text"]);
}

#[test]
fn explicit_subtitle_without_index_adds_nothing() {
    let mut o = base_options();
    o.subtitle_strategy = SubtitleStrategy::BurnIn;
    let args = build_args(&o, &no_gpu(), &ProgressSink::Pipe);
    let w = words(&args);
    assert_eq!(&w[12..], &["-progress", "pipe:1", "-y", "out.mkv"]);
}

#[test]
fn capabilities_do_not_change_the_arguments() {
    let o = base_options();
    let all = check_gpu_availability(Some("h264_nvenc h264_qsv h264_vaapi h264_videotoolbox h264_amf"));
    let a = build_args(&o, &no_gpu(), &ProgressSink::Pipe);
    let b = build_args(&o, &all, &ProgressSink::Pipe);
    assert_eq!(a, b);
}

#[test]
fn strategy_names() {
    assert_eq!(AudioStrategy::from_name(Some("copy_all")), AudioStrategy::CopyAll);
    assert_eq!(AudioStrategy::from_name(Some("convert_all")), AudioStrategy::ConvertAll);
    assert_eq!(AudioStrategy::from_name(Some("first_track")), AudioStrategy::FirstTrack);
    assert_eq!(AudioStrategy::from_name(Some("other")), AudioStrategy::ExplicitIndex);
    assert_eq!(AudioStrategy::from_name(None), AudioStrategy::ExplicitIndex);
    assert_eq!(SubtitleStrategy::from_name(Some("copy_all")), SubtitleStrategy::CopyAll);
    assert_eq!(SubtitleStrategy::from_name(Some("ignore")), SubtitleStrategy::Ignore);
    assert_eq!(SubtitleStrategy::from_name(Some("burn_in")), SubtitleStrategy::BurnIn);
    assert_eq!(SubtitleStrategy::from_name(None), SubtitleStrategy::ExplicitIndex);
}

#[test]
fn text_container_is_recognised_in_any_case() {
    assert!(output_needs_text_subtitles("a.mp4"));
    assert!(output_needs_text_subtitles("A.Mp4"));
    assert!(!output_needs_text_subtitles("a.mkv"));
    assert!(!output_needs_text_subtitles("mp4"));
    assert!(!output_needs_text_subtitles("a.mp4.part"));
}

#[test]
fn selector_and_sidecar_names() {
    assert_eq!(stream_selector_text(0), "0:0");
    assert_eq!(stream_selector_text(4294967295), "0:4294967295");
    assert_eq!(sidecar_file_name("abc"), "ffmpeg_progress_abc.txt");
}

#[test]
fn encoder_listing_is_matched_in_any_case() {
    let caps = check_gpu_availability(Some(" V..... H264_NVENC  NVIDIA NVENC H.264 encoder\n V..... hevc_qsv"));
    assert!(caps.has_nvenc);
    assert!(caps.has_qsv);
    assert!(!caps.has_vaapi);
    assert!(!caps.has_videotoolbox);
    assert!(!caps.has_amf);
}

#[test]
fn unreachable_tool_means_no_capabilities() {
    let caps = check_gpu_availability(None);
    assert!(!caps.has_nvenc && !caps.has_qsv && !caps.has_vaapi && !caps.has_videotoolbox && !caps.has_amf);
}
