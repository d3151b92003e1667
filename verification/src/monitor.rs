use vstd::prelude::*;
use crate::number::{clock_text, format_clock};
use crate::progress::{
    average_fps_milli, average_rate, estimate_remaining, progress_fraction, progress_of,
    remaining_seconds, slide_window, window_after, FrameSample, EMIT_INTERVAL_MS, PROGRESS_SCALE,
};
use crate::sample::{is_valid_sample, ProgressSample};

verus! {

/// One progress event of a job.
#[derive(Clone, Debug)]
pub struct ConversionProgress {
    /// The job that the event belongs to.
    pub id: String,
    pub frame: u64,
    /// The rate that the tool reports, in thousandths of a frame per second.
    pub fps_milli: u64,
    /// Position in the output as `HH:MM:SS`; empty while it is zero.
    pub time: String,
    /// Wall time since the job started, as `HH:MM:SS`.
    pub elapsed_time: String,
    pub bitrate: String,
    pub speed: String,
    /// Progress between zero and the full scale.
    pub progress: u64,
    /// Estimated time that remains as `HH:MM:SS`, when it is known.
    pub time_remaining: Option<String>,
}

/// What a progress event holds, as plain values.
pub struct ProgressFacts {
    pub id: Seq<char>,
    pub frame: u64,
    pub fps_milli: u64,
    pub time: Seq<char>,
    pub elapsed_time: Seq<char>,
    pub bitrate: Seq<char>,
    pub speed: Seq<char>,
    pub progress: u64,
    pub time_remaining: Option<Seq<char>>,
}

impl View for ConversionProgress {
    type V = ProgressFacts;

    open spec fn view(&self) -> ProgressFacts {
        ProgressFacts {
            id: self.id@,
            frame: self.frame,
            fps_milli: self.fps_milli,
            time: self.time@,
            elapsed_time: self.elapsed_time@,
            bitrate: self.bitrate@,
            speed: self.speed@,
            progress: self.progress,
            time_remaining: match self.time_remaining {
                Some(t) => Some(t@),
                None => None,
            },
        }
    }
}

/// The progress monitor of one job: what it must remember between two
/// readings of the progress report.
pub struct ProgressMonitor {
    pub id: String,
    pub total_frames: Option<u64>,
    pub duration_micros: u64,
    /// When the job started, in milliseconds on the caller's clock.
    pub started_ms: u64,
    /// The frame samples inside the sliding window, oldest first.
    pub history: Vec<FrameSample>,
    /// When the last event was emitted, if one was.
    pub last_emit_ms: Option<u64>,
    /// The progress of the last event; zero before the first.
    pub last_progress: u64,
    /// The frame counter of the last event; zero before the first.
    pub last_frame: u64,
    /// The output position of the last event in microseconds; zero before the first.
    pub last_time_micros: u64,
}

/// True when enough time has passed since the last event for another one.
pub open spec fn interval_passed(last_emit_ms: Option<u64>, now_ms: u64) -> bool {
    match last_emit_ms {
        Some(last) => now_ms >= last && now_ms - last >= EMIT_INTERVAL_MS,
        None => true,
    }
}

/// Full progress is reported only when the sample confirms the end: the
/// tool says that it has ended, or the frame counter has reached the known
/// total. A sample that merely runs past the declared duration is held back.
pub open spec fn is_premature(
    progress: nat,
    frame: u64,
    total_frames: Option<u64>,
    ended: bool,
) -> bool {
    progress >= PROGRESS_SCALE && !ended && match total_frames {
        Some(total) => frame < total,
        None => frame < u64::MAX,
    }
}

/// A number of seconds, cut off at the largest 64-bit number.
pub open spec fn saturated(seconds: nat) -> nat {
    if seconds > u64::MAX {
        u64::MAX as nat
    } else {
        seconds
    }
}

/// The whole seconds between the start of the job and `now_ms`.
pub open spec fn elapsed_seconds(started_ms: u64, now_ms: u64) -> nat {
    if now_ms >= started_ms {
        ((now_ms - started_ms) / 1000) as nat
    } else {
        0
    }
}

impl ProgressMonitor {
    /// The monitor's own invariant: the remembered progress is on the scale.
    pub open spec fn wf(&self) -> bool {
        self.last_progress <= PROGRESS_SCALE
    }

    /// The progress that a sample shows: what the sample gives, but never
    /// less than what was reported before.
    pub open spec fn shown_progress(&self, sample: &ProgressSample) -> nat {
        let now = progress_of(
            sample.frame,
            sample.out_time_micros,
            self.total_frames,
            self.duration_micros,
        );
        if now >= self.last_progress {
            now
        } else {
            self.last_progress as nat
        }
    }

    /// True when a sample does not fall behind the last event, neither in
    /// frames nor in output time.
    pub open spec fn in_order(&self, sample: &ProgressSample) -> bool {
        sample.frame >= self.last_frame && sample.out_time_micros >= self.last_time_micros
    }

    /// True when a reading at `now_ms` leads to an event: the sample is
    /// valid and in order, the interval since the last event has passed, and
    /// the sample does not claim the end before the frames are there.
    pub open spec fn emits(&self, now_ms: u64, sample: &ProgressSample) -> bool {
        is_valid_sample(sample@) && self.in_order(sample) && interval_passed(
            self.last_emit_ms,
            now_ms,
        ) && !is_premature(
            progress_of(
                sample.frame,
                sample.out_time_micros,
                self.total_frames,
                self.duration_micros,
            ),
            sample.frame,
            self.total_frames,
            sample.ended,
        )
    }

    /// The event of a reading at `now_ms`, the window already holding the new sample.
    pub open spec fn event_facts(
        &self,
        now_ms: u64,
        sample: &ProgressSample,
        window: Seq<FrameSample>,
    ) -> ProgressFacts {
        ProgressFacts {
            id: self.id@,
            frame: sample.frame,
            fps_milli: sample.fps_milli,
            time: if sample.out_time_micros > 0 {
                clock_text((sample.out_time_micros / 1_000_000) as nat)
            } else {
                Seq::<char>::empty()
            },
            elapsed_time: clock_text(elapsed_seconds(self.started_ms, now_ms)),
            bitrate: sample.bitrate@,
            speed: sample.speed@,
            progress: self.shown_progress(sample) as u64,
            time_remaining: match remaining_seconds(
                sample.frame,
                sample.out_time_micros,
                self.total_frames,
                self.duration_micros,
                average_rate(window, sample.fps_milli),
            ) {
                Some(seconds) => Some(clock_text(saturated(seconds))),
                None => None,
            },
        }
    }

    /// A monitor for a job that starts at `started_ms`.
    pub fn new(id: String, total_frames: Option<u64>, duration_micros: u64, started_ms: u64) -> (m:
        ProgressMonitor)
        ensures
            m.wf(),
            m.id == id,
            m.total_frames == total_frames,
            m.duration_micros == duration_micros,
            m.started_ms == started_ms,
            m.history@.len() == 0,
            m.last_emit_ms is None,
            m.last_progress == 0,
            m.last_frame == 0,
            m.last_time_micros == 0,
    {
        ProgressMonitor {
            id,
            total_frames,
            duration_micros,
            started_ms,
            history: Vec::new(),
            last_emit_ms: None,
            last_progress: 0,
            last_frame: 0,
            last_time_micros: 0,
        }
    }

    /// Takes one reading of the progress report, made at `now_ms`.
    ///
    /// A reading without frames changes nothing. Any other reading enters the
    /// sliding window. An event comes out when `emits` holds; it carries
    /// `event_facts`, and neither its frame counter, its output position nor
    /// its progress is below that of the event before.
    pub fn observe(&mut self, now_ms: u64, sample: &ProgressSample) -> (event: Option<
        ConversionProgress,
    >)
        requires
            old(self).wf(),
        ensures
            final(self).wf(),
            final(self).id == old(self).id,
            final(self).total_frames == old(self).total_frames,
            final(self).duration_micros == old(self).duration_micros,
            final(self).started_ms == old(self).started_ms,
            final(self).history@ == if is_valid_sample(sample@) {
                window_after(old(self).history@, (FrameSample { at_ms: now_ms, frame: sample.frame }))
            } else {
                old(self).history@
            },
            event is Some <==> old(self).emits(now_ms, sample),
            event is Some ==> event->0@ == old(self).event_facts(
                now_ms,
                sample,
                final(self).history@,
            ),
            event is Some ==> final(self).last_emit_ms == Some(now_ms) && final(self).last_progress
                == event->0.progress,
            event is Some ==> old(self).last_progress <= event->0.progress <= PROGRESS_SCALE,
            event is Some ==> event->0.frame >= old(self).last_frame,
            event is Some ==> final(self).last_frame == sample.frame,
            event is Some ==> final(self).last_time_micros == sample.out_time_micros,
            event is None ==> final(self).last_frame == old(self).last_frame,
            event is None ==> final(self).last_time_micros == old(self).last_time_micros,
            event is None ==> final(self).last_emit_ms == old(self).last_emit_ms,
            event is None ==> final(self).last_progress == old(self).last_progress,
            final(self).last_progress >= old(self).last_progress,
    {
        if sample.frame == 0 {
            return None;
        }
        slide_window(&mut self.history, FrameSample { at_ms: now_ms, frame: sample.frame });
        let due: bool = match self.last_emit_ms {
            Some(last) => now_ms >= last && now_ms - last >= EMIT_INTERVAL_MS,
            None => true,
        };
        let computed: u64 = progress_fraction(
            sample.frame,
            sample.out_time_micros,
            self.total_frames,
            self.duration_micros,
        );
        let at_end: bool = match self.total_frames {
            Some(total) => sample.frame >= total,
            None => sample.frame == u64::MAX,
        };
        let in_order: bool = sample.frame >= self.last_frame && sample.out_time_micros
            >= self.last_time_micros;
        if !due || !in_order || (computed >= PROGRESS_SCALE && !at_end && !sample.ended) {
            return None;
        }
        let shown: u64 = if computed >= self.last_progress {
            computed
        } else {
            self.last_progress
        };
        let rate: u128 = average_fps_milli(&self.history, sample.fps_milli);
        let remaining = estimate_remaining(
            sample.frame,
            sample.out_time_micros,
            self.total_frames,
            self.duration_micros,
            rate,
        );
        let time_remaining: Option<String> = match remaining {
            Some(seconds) => Some(format_clock(seconds)),
            None => None,
        };
        let time: String = if sample.out_time_micros > 0 {
            format_clock(sample.out_time_micros / 1_000_000)
        } else {
            String::new()
        };
        let elapsed: u64 = if now_ms >= self.started_ms {
            (now_ms - self.started_ms) / 1000
        } else {
            0
        };
        let event = ConversionProgress {
            id: self.id.clone(),
            frame: sample.frame,
            fps_milli: sample.fps_milli,
            time,
            elapsed_time: format_clock(elapsed),
            bitrate: sample.bitrate.clone(),
            speed: sample.speed.clone(),
            progress: shown,
            time_remaining,
        };
        self.last_emit_ms = Some(now_ms);
        self.last_progress = shown;
        self.last_frame = sample.frame;
        self.last_time_micros = sample.out_time_micros;
        Some(event)
    }

    /// The closing event of a job whose process has ended with success: full
    /// progress, nothing remaining. It carries the frame counter and the
    /// output position of the last sample, or those of the last event where
    /// the sample falls behind them.
    pub fn completion_event(&mut self, now_ms: u64, last: &ProgressSample) -> (event:
        ConversionProgress)
        requires
            old(self).wf(),
        ensures
            final(self).wf(),
            final(self).last_progress == PROGRESS_SCALE,
            final(self).last_emit_ms == Some(now_ms),
            final(self).id == old(self).id,
            final(self).history@ == old(self).history@,
            event.progress == PROGRESS_SCALE,
            event.id@ == old(self).id@,
            event.frame == if last.frame >= old(self).last_frame {
                last.frame
            } else {
                old(self).last_frame
            },
            final(self).last_frame == event.frame,
            event.fps_milli == last.fps_milli,
            event.bitrate@ == last.bitrate@,
            event.speed@ == last.speed@,
            event.elapsed_time@ == clock_text(elapsed_seconds(old(self).started_ms, now_ms)),
            event.time@ == clock_text(
                (if last.out_time_micros >= old(self).last_time_micros {
                    last.out_time_micros
                } else {
                    old(self).last_time_micros
                } / 1_000_000) as nat,
            ),
            event.time_remaining is Some && event.time_remaining->0@ == clock_text(0),
    {
        let frame: u64 = if last.frame >= self.last_frame {
            last.frame
        } else {
            self.last_frame
        };
        let time_micros: u64 = if last.out_time_micros >= self.last_time_micros {
            last.out_time_micros
        } else {
            self.last_time_micros
        };
        self.last_frame = frame;
        self.last_time_micros = time_micros;
        let elapsed: u64 = if now_ms >= self.started_ms {
            (now_ms - self.started_ms) / 1000
        } else {
            0
        };
        self.last_progress = PROGRESS_SCALE;
        self.last_emit_ms = Some(now_ms);
        ConversionProgress {
            id: self.id.clone(),
            frame,
            fps_milli: last.fps_milli,
            time: format_clock(time_micros / 1_000_000),
            elapsed_time: format_clock(elapsed),
            bitrate: last.bitrate.clone(),
            speed: last.speed.clone(),
            progress: PROGRESS_SCALE,
            time_remaining: Some(format_clock(0)),
        }
    }
}

} // verus!
