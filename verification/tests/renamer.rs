use transcode_supervisor::probe::{AudioTrack, VideoMetadata};
use transcode_supervisor::renamer::{
    audio_codec_name, capitalize, clean_filename, clean_stem, generate_filename,
    generate_smart_filename, input_codec_name, output_codec_name, parse_filename_intelligently,
    parse_stem, search_url, MovieSearchResult,
};
use transcode_supervisor::text::replace_all;

fn chars(s: &str) -> Vec<char> {
    s.chars().collect()
}

fn text(c: &[char]) -> String {
    c.iter().collect()
}

fn texts(list: &[Vec<char>]) -> Vec<String> {
    list.iter().map(|c| text(c)).collect()
}

fn track(codec: &str) -> AudioTrack {
    AudioTrack {
        index: 1,
        codec: codec.to_string(),
        language: None,
        channels: None,
        sample_rate: None,
        bitrate: None,
        title: None,
    }
}

fn metadata(height: u64, codec: &str, audio: Vec<AudioTrack>) -> VideoMetadata {
    VideoMetadata {
        duration_millis: None,
        width: 0,
        height,
        format: "matroska".to_string(),
        video_codec: codec.to_string(),
        audio_tracks: audio,
        subtitle_tracks: vec![],
        size: 0,
        total_frames: None,
    }
}

fn film(title: &str, date: Option<&str>) -> MovieSearchResult {
    MovieSearchResult {
        id: 1,
        title: title.to_string(),
        release_date: date.map(|d| d.to_string()),
        overview: String::new(),
        poster_path: None,
    }
}

#[test]
fn replacing_texts() {
    assert_eq!(text(&replace_all(&chars("a..b...c"), &chars(".."), &chars("."))), "a.b..c");
    assert_eq!(text(&replace_all(&chars("aaa"), &chars("aa"), &chars("b"))), "ba");
    assert_eq!(text(&replace_all(&chars("abc"), &chars(""), &chars("x"))), "abc");
    assert_eq!(text(&replace_all(&chars(""), &chars("a"), &chars("x"))), "");
    assert_eq!(text(&replace_all(&chars("{t} {t}"), &chars("{t}"), &chars(""))), " ");
}

#[test]
fn template_with_film() {
    let md = metadata(1080, "h264", vec![]);
    let info = film("Inception", Some("2010-07-16"));
    assert_eq!(
        generate_filename(&md, Some(&info), "{title} ({year}) [{quality}] {codec}"),
        "Inception (2010) [1080p] h264.mp4"
    );
    let undated = film("Inception", None);
    assert_eq!(generate_filename(&md, Some(&undated), "{title} {year}"), "Inception {year}.mp4");
}

#[test]
fn template_without_film() {
    assert_eq!(
        generate_filename(&metadata(2160, "hevc", vec![]), None, "{title} ({year}) [{quality}] {codec}"),
        "Unknown Title () [4K] hevc.mp4"
    );
    assert_eq!(generate_filename(&metadata(720, "h264", vec![]), None, " {title}  {quality}.mp4 "), "Unknown Title 720p.mp4");
    assert_eq!(generate_filename(&metadata(480, "h264", vec![]), None, "{quality}"), "SD.mp4");
}

#[test]
fn clean_names() {
    assert_eq!(clean_filename("The.Matrix.1999.1080p.BluRay.x264.mkv"), "The Matrix 1999.mp4");
    assert_eq!(clean_filename("my_movie_web-dl.avi"), "My Movie.mp4");
    assert_eq!(clean_filename("/videos/élan.vital.FRENCH.mkv"), "Élan Vital.mp4");
    assert_eq!(clean_stem("some_film_HDR_10bit"), "Some Film.mp4");
    assert_eq!(clean_stem("multiverse.x2645"), "Multiverse X2645.mp4");
    assert_eq!(clean_stem(""), ".mp4");
}

#[test]
fn capital_letters() {
    assert_eq!(text(&capitalize(&chars("word"))), "Word");
    assert_eq!(text(&capitalize(&chars("ßa"))), "SSa");
    assert_eq!(text(&capitalize(&chars("1a"))), "1a");
    assert_eq!(text(&capitalize(&chars(""))), "");
}

#[test]
fn parsed_release_name() {
    let p = parse_stem("The.Matrix.1999.MULTI.1080p.BluRay.x264-GROUP");
    assert_eq!(texts(&p.title), vec!["The", "Matrix", "GROUP"]);
    assert_eq!(p.year.as_deref().map(text).as_deref(), Some("1999"));
    assert_eq!(texts(&p.audio_info), vec!["MULTI"]);
    assert_eq!(p.resolution.as_deref().map(text).as_deref(), Some("1080p"));
    assert_eq!(p.video_codec.as_deref().map(text).as_deref(), Some("X264"));
    assert_eq!(p.audio_codec, None);
    assert_eq!(p.source.as_deref().map(text).as_deref(), Some("BLURAY"));
}

#[test]
fn parsed_notes_and_tags() {
    let p = parse_stem("Movie_2020_VF2_vo_Multisub_720p_eac3_hevc_repack_abc_ABC_x1");
    assert_eq!(texts(&p.title), vec!["Movie", "ABC"]);
    assert_eq!(texts(&p.audio_info), vec!["VF2", "VO", "MULTI"]);
    assert_eq!(p.audio_codec.as_deref().map(text).as_deref(), Some("EAC3"));
    assert_eq!(p.video_codec.as_deref().map(text).as_deref(), Some("HEVC"));
    let q = parse_filename_intelligently("/a/b/film.4k.mkv");
    assert_eq!(texts(&q.title), vec!["film"]);
    assert_eq!(q.resolution.as_deref().map(text).as_deref(), Some("4K"));
}

#[test]
fn release_names() {
    let md = metadata(1080, "h264", vec![track("aac")]);
    assert_eq!(
        generate_smart_filename("The.Matrix.1999.MULTI.1080p.BluRay.x264-GROUP.mkv", &md, None, "mkv"),
        "The.Matrix.GROUP.1999.MULTI.1080p.AAC.X264.mkv"
    );
    assert_eq!(
        generate_smart_filename("The.Matrix.1999.MULTI.1080p.BluRay.x264-GROUP.mkv", &md, Some("hevc_nvenc"), "mp4"),
        "The.Matrix.GROUP.1999.MULTI.1080p.AAC.x265.mp4"
    );
    let two = metadata(2160, "hevc", vec![track("dts-hd ma"), track("ac3")]);
    assert_eq!(
        generate_smart_filename("/films/my film.mkv", &two, None, "mkv"),
        "my.film.MULTI.2160p.DTS.x265.mkv"
    );
    let silent = metadata(300, "mpeg2video", vec![]);
    assert_eq!(generate_smart_filename("1999.vf.vf.avi", &silent, None, "mkv"), "1999.Vf.Vf.1999.VF.SD.x264.mkv");
}

#[test]
fn codec_labels() {
    assert_eq!(text(&output_codec_name("libx264")), "x264");
    assert_eq!(text(&output_codec_name("HEVC_VAAPI")), "x265");
    assert_eq!(text(&output_codec_name("libaom-av1")), "AV1");
    assert_eq!(text(&output_codec_name("libvpx-vp9")), "VP9");
    assert_eq!(text(&output_codec_name("my264enc")), "x264");
    assert_eq!(text(&output_codec_name("my265enc")), "x265");
    assert_eq!(text(&output_codec_name("ProRes")), "ProRes");
    assert_eq!(text(&input_codec_name("AVC")), "x264");
    assert_eq!(text(&input_codec_name("HEVC")), "x265");
    assert_eq!(text(&input_codec_name("av1")), "AV1");
    assert_eq!(text(&input_codec_name("vp9")), "VP9");
    assert_eq!(text(&input_codec_name("mpeg4")), "x264");
    assert_eq!(text(&audio_codec_name("dts-hd")), "DTS");
    assert_eq!(text(&audio_codec_name("eac3")), "AC3");
    assert_eq!(text(&audio_codec_name("vorbis")), "VORBIS");
}

#[test]
fn film_search_address() {
    assert_eq!(
        search_url("the matrix", "KEY"),
        "https://api.themoviedb.org/3/search/movie?api_key=KEY&query=the matrix&language=fr-FR"
    );
}
