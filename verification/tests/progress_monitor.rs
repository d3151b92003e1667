use transcode_supervisor::monitor::ProgressMonitor;
use transcode_supervisor::number::{format_clock, parse_milli, parse_u64};
use transcode_supervisor::progress::{
    average_fps_milli, estimate_remaining, progress_fraction, ratio_on_scale, slide_window,
    FrameSample, PROGRESS_SCALE,
};
use transcode_supervisor::sample::{parse_progress_report, ProgressSample};
use transcode_supervisor::text::{chars_of, split, split_words, string_of, trim};

fn chars(s: &str) -> Vec<char> {
    s.chars().collect()
}

fn sample(frame: u64, fps_milli: u64, out_time_micros: u64) -> ProgressSample {
    ProgressSample {
        frame,
        fps_milli,
        bitrate: "1200.5kbits/s".to_string(),
        speed: "1.5x".to_string(),
        out_time_micros,
        ended: false,
    }
}

#[test]
fn average_over_ten_second_window_is_twenty_six() {
    let mut history: Vec<FrameSample> = Vec::new();
    slide_window(&mut history, FrameSample { at_ms: 0, frame: 0 });
    slide_window(&mut history, FrameSample { at_ms: 5_000, frame: 125 });
    slide_window(&mut history, FrameSample { at_ms: 10_000, frame: 260 });
    assert_eq!(history.len(), 3);
    assert_eq!(average_fps_milli(&history, 0), 26_000);
}

#[test]
fn stale_samples_leave_the_window() {
    let mut history: Vec<FrameSample> = Vec::new();
    slide_window(&mut history, FrameSample { at_ms: 0, frame: 10 });
    slide_window(&mut history, FrameSample { at_ms: 5_000, frame: 125 });
    slide_window(&mut history, FrameSample { at_ms: 10_999, frame: 260 });
    assert_eq!(history.len(), 3);
    slide_window(&mut history, FrameSample { at_ms: 11_000, frame: 300 });
    assert_eq!(
        history,
        vec![
            FrameSample { at_ms: 5_000, frame: 125 },
            FrameSample { at_ms: 10_999, frame: 260 },
            FrameSample { at_ms: 11_000, frame: 300 },
        ]
    );
    assert_eq!(average_fps_milli(&history, 0), 175 * 1_000_000 / 6_000);
}

#[test]
fn average_falls_back_to_reported_rate() {
    let mut history: Vec<FrameSample> = Vec::new();
    assert_eq!(average_fps_milli(&history, 24_500), 24_500);
    slide_window(&mut history, FrameSample { at_ms: 7, frame: 10 });
    assert_eq!(average_fps_milli(&history, 24_500), 24_500);
    slide_window(&mut history, FrameSample { at_ms: 7, frame: 20 });
    assert_eq!(average_fps_milli(&history, 24_500), 24_500);
}

#[test]
fn progress_is_clamped_to_the_scale() {
    assert_eq!(progress_fraction(50, 0, Some(200), 0), 2_500);
    assert_eq!(progress_fraction(200, 0, Some(200), 0), PROGRESS_SCALE);
    assert_eq!(progress_fraction(900, 0, Some(200), 0), PROGRESS_SCALE);
    assert_eq!(progress_fraction(u64::MAX, 0, Some(1), 0), PROGRESS_SCALE);
    assert_eq!(progress_fraction(5, 0, Some(0), 0), 0);
    assert_eq!(progress_fraction(5, 30_000_000, None, 60_000_000), 5_000);
    assert_eq!(progress_fraction(5, 90_000_000, None, 60_000_000), PROGRESS_SCALE);
    assert_eq!(progress_fraction(5, 0, None, 60_000_000), 0);
    assert_eq!(progress_fraction(5, 30_000_000, None, 0), 0);
    assert_eq!(ratio_on_scale(1, 3), 3_333);
    assert_eq!(ratio_on_scale(u64::MAX - 1, u64::MAX), 9_999);
}

#[test]
fn remaining_time_by_frames_and_by_duration() {
    assert_eq!(estimate_remaining(100, 0, Some(360), 0, 26_000), Some(10));
    assert_eq!(estimate_remaining(360, 0, Some(360), 0, 26_000), None);
    assert_eq!(estimate_remaining(100, 0, Some(360), 0, 0), None);
    assert_eq!(estimate_remaining(100, 20_000_000, None, 65_500_000, 1), Some(45));
    assert_eq!(estimate_remaining(100, 70_000_000, None, 65_500_000, 1), Some(0));
    assert_eq!(estimate_remaining(100, 20_000_000, None, 65_500_000, 0), None);
    assert_eq!(estimate_remaining(100, 0, None, 65_500_000, 5), None);
    assert_eq!(estimate_remaining(0, 0, Some(u64::MAX), 0, 1), Some(u64::MAX));
}

#[test]
fn clock_format() {
    assert_eq!(format_clock(0), "00:00:00");
    assert_eq!(format_clock(59), "00:00:59");
    assert_eq!(format_clock(3_661), "01:01:01");
    assert_eq!(format_clock(86_399), "23:59:59");
    assert_eq!(format_clock(360_000), "100:00:00");
}

#[test]
fn whole_numbers() {
    assert_eq!(parse_u64(&chars("0")), Some(0));
    assert_eq!(parse_u64(&chars("+42")), Some(42));
    assert_eq!(parse_u64(&chars("18446744073709551615")), Some(u64::MAX));
    assert_eq!(parse_u64(&chars("18446744073709551616")), None);
    assert_eq!(parse_u64(&chars("")), None);
    assert_eq!(parse_u64(&chars("+")), None);
    assert_eq!(parse_u64(&chars("-1")), None);
    assert_eq!(parse_u64(&chars("12a")), None);
    assert_eq!(parse_u64(&chars("N/A")), None);
}

#[test]
fn thousandths() {
    assert_eq!(parse_milli(&chars("25")), Some(25_000));
    assert_eq!(parse_milli(&chars("25.5")), Some(25_500));
    assert_eq!(parse_milli(&chars("23.976")), Some(23_976));
    assert_eq!(parse_milli(&chars("23.9769")), Some(23_976));
    assert_eq!(parse_milli(&chars("7.")), Some(7_000));
    assert_eq!(parse_milli(&chars("0.05")), Some(50));
    assert_eq!(parse_milli(&chars(".5")), None);
    assert_eq!(parse_milli(&chars("1.2.3")), None);
    assert_eq!(parse_milli(&chars("1e3")), None);
    assert_eq!(parse_milli(&chars("")), None);
    assert_eq!(parse_milli(&chars("18446744073709551615")), None);
}

#[test]
fn text_helpers() {
    assert_eq!(chars_of("héllo"), chars("héllo"));
    assert_eq!(string_of(&chars("héllo")), "héllo");
    assert_eq!(trim(&chars("  a b \r\n")), chars("a b"));
    assert_eq!(trim(&chars(" \t ")), chars(""));
    assert_eq!(split(&chars("a,,b"), ','), vec![chars("a"), chars(""), chars("b")]);
    assert_eq!(split(&chars(""), ','), vec![chars("")]);
    assert_eq!(split_words(&chars("  DE  mp4   MP4 (MPEG-4 Part 14) ")),
        vec![chars("DE"), chars("mp4"), chars("MP4"), chars("(MPEG-4"), chars("Part"), chars("14)")]);
    assert_eq!(split_words(&chars("   ")), Vec::<Vec<char>>::new());
}

#[test]
fn report_is_read_from_scratch_and_last_value_counts() {
    let report = "frame=10\nfps=24.00\nbitrate= 900.0kbits/s\nout_time_ms=400000\nspeed=0.9x\nprogress=continue\n\
                  frame=125\r\nfps=25.50\r\nbitrate=1200.5kbits/s\r\ntotal_size=1024\r\nout_time_ms=5000000\r\nspeed= 1.5x \r\nprogress=continue\r\n";
    let s = parse_progress_report(report);
    assert_eq!(s.frame, 125);
    assert_eq!(s.fps_milli, 25_500);
    assert_eq!(s.bitrate, "1200.5kbits/s");
    assert_eq!(s.speed, "1.5x");
    assert_eq!(s.out_time_micros, 5_000_000);
    assert!(!s.ended);
    let done = parse_progress_report("frame=300\nprogress=continue\nframe=310\nprogress=end\n");
    assert_eq!(done.frame, 310);
    assert!(done.ended);
}

#[test]
fn unreadable_values_count_as_zero() {
    let s = parse_progress_report("frame=abc\nfps=N/A\nout_time_ms=-5\nnoise line\n");
    assert_eq!(s.frame, 0);
    assert_eq!(s.fps_milli, 0);
    assert_eq!(s.out_time_micros, 0);
    assert_eq!(s.bitrate, "");
    assert_eq!(s.speed, "");
    let empty = parse_progress_report("");
    assert_eq!(empty.frame, 0);
}

#[test]
fn monitor_ignores_samples_without_frames() {
    let mut m = ProgressMonitor::new("job".to_string(), Some(1000), 0, 0);
    assert!(m.observe(500, &sample(0, 25_000, 0)).is_none());
    assert!(m.history.is_empty());
    assert_eq!(m.last_emit_ms, None);
}

#[test]
fn monitor_emits_event_with_all_fields() {
    let mut m = ProgressMonitor::new("job".to_string(), Some(1000), 40_000_000, 1_000);
    let e = m.observe(6_000, &sample(125, 25_000, 5_000_000)).unwrap();
    assert_eq!(e.id, "job");
    assert_eq!(e.frame, 125);
    assert_eq!(e.fps_milli, 25_000);
    assert_eq!(e.time, "00:00:05");
    assert_eq!(e.elapsed_time, "00:00:05");
    assert_eq!(e.bitrate, "1200.5kbits/s");
    assert_eq!(e.speed, "1.5x");
    assert_eq!(e.progress, 1_250);
    assert_eq!(e.time_remaining.as_deref(), Some("00:00:35"));
    let e2 = m.observe(11_000, &sample(385, 25_000, 15_000_000)).unwrap();
    assert_eq!(e2.progress, 3_850);
    assert_eq!(e2.time_remaining.as_deref(), Some("00:00:11"));
    assert_eq!(e2.elapsed_time, "00:00:10");
}

#[test]
fn monitor_limits_the_event_rate() {
    let mut m = ProgressMonitor::new("job".to_string(), Some(1000), 0, 0);
    assert!(m.observe(1_000, &sample(10, 25_000, 0)).is_some());
    assert!(m.observe(1_100, &sample(12, 25_000, 0)).is_none());
    assert_eq!(m.history.len(), 2);
    assert!(m.observe(1_199, &sample(13, 25_000, 0)).is_none());
    assert!(m.observe(1_200, &sample(14, 25_000, 0)).is_some());
}

#[test]
fn monitor_progress_never_falls() {
    let mut m = ProgressMonitor::new("job".to_string(), Some(1000), 0, 0);
    let a = m.observe(1_000, &sample(500, 25_000, 0)).unwrap();
    assert_eq!(a.progress, 5_000);
    assert!(m.observe(2_000, &sample(400, 25_000, 0)).is_none());
    assert_eq!(m.last_frame, 500);
    let b = m.observe(3_000, &sample(500, 25_000, 0)).unwrap();
    assert_eq!(b.progress, 5_000);
    let c = m.observe(4_000, &sample(750, 25_000, 0)).unwrap();
    assert_eq!(c.progress, 7_500);
}

#[test]
fn monitor_keeps_events_in_order_of_output_time() {
    let mut m = ProgressMonitor::new("job".to_string(), None, 100_000_000, 0);
    let a = m.observe(1_000, &sample(10, 25_000, 20_000_000)).unwrap();
    assert_eq!(a.progress, 2_000);
    assert!(m.observe(2_000, &sample(20, 25_000, 10_000_000)).is_none());
    let b = m.observe(3_000, &sample(20, 25_000, 30_000_000)).unwrap();
    assert_eq!(b.progress, 3_000);
    assert_eq!(b.time_remaining.as_deref(), Some("00:01:10"));
}

#[test]
fn monitor_holds_back_a_premature_end() {
    let mut m = ProgressMonitor::new("job".to_string(), None, 10_000_000, 0);
    assert!(m.observe(1_000, &sample(300, 25_000, 12_000_000)).is_none());
    let mut last = sample(310, 25_000, 12_500_000);
    last.ended = true;
    let confirmed = m.observe(2_000, &last).unwrap();
    assert_eq!(confirmed.progress, PROGRESS_SCALE);
    let mut by_frames = ProgressMonitor::new("job".to_string(), Some(300), 0, 0);
    let e = by_frames.observe(1_000, &sample(300, 25_000, 0)).unwrap();
    assert_eq!(e.progress, PROGRESS_SCALE);
    assert_eq!(e.time_remaining, None);
    let over = by_frames.observe(2_000, &sample(450, 25_000, 0)).unwrap();
    assert_eq!(over.progress, PROGRESS_SCALE);
}

#[test]
fn monitor_completion_event() {
    let mut m = ProgressMonitor::new("job".to_string(), Some(300), 0, 2_000);
    let e = m.completion_event(63_000, &sample(300, 25_000, 12_000_000));
    assert_eq!(e.progress, PROGRESS_SCALE);
    assert_eq!(e.elapsed_time, "00:01:01");
    assert_eq!(e.time, "00:00:12");
    assert_eq!(e.time_remaining.as_deref(), Some("00:00:00"));
}
