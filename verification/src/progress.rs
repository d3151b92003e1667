use vstd::prelude::*;

verus! {

/// Progress is a whole number of ten-thousandths: 0 is nothing done, this is all done.
pub const PROGRESS_SCALE: u64 = 10_000;

/// The sliding window of the rate estimate, in whole seconds.
pub const HISTORY_SECONDS: u64 = 10;

/// The shortest time between two progress events, in milliseconds.
pub const EMIT_INTERVAL_MS: u64 = 200;

/// One observation of the frame counter.
#[derive(Clone, Copy, Debug, PartialEq, Eq, Structural)]
pub struct FrameSample {
    /// When the observation was made, in milliseconds on the caller's clock.
    pub at_ms: u64,
    /// The number of frames written so far.
    pub frame: u64,
}

/// `current` out of `total` on the progress scale, rounded down and never
/// above the full scale, whatever `current` is.
pub open spec fn scaled_ratio(current: nat, total: nat) -> nat {
    if total == 0 {
        0
    } else if current >= total {
        PROGRESS_SCALE as nat
    } else {
        current * (PROGRESS_SCALE as nat) / total
    }
}

/// The progress of a job: by frames when the total frame count is known,
/// else by output time when the duration is known, else zero.
pub open spec fn progress_of(
    frame: u64,
    time_micros: u64,
    total_frames: Option<u64>,
    duration_micros: u64,
) -> nat {
    match total_frames {
        Some(total) => scaled_ratio(frame as nat, total as nat),
        None => if time_micros > 0 {
            scaled_ratio(time_micros as nat, duration_micros as nat)
        } else {
            0
        },
    }
}

/// A scaled ratio lies between zero and the full scale.
pub proof fn lemma_scaled_ratio_bounds(current: nat, total: nat)
    ensures
        scaled_ratio(current, total) <= PROGRESS_SCALE,
{
    if total > 0 && current < total {
        assert(current * (PROGRESS_SCALE as nat) / total <= PROGRESS_SCALE) by (nonlinear_arith)
            requires
                current < total,
                total > 0,
        ;
    }
}

/// A scaled ratio does not fall when the numerator grows.
pub proof fn lemma_scaled_ratio_monotonic(a: nat, b: nat, total: nat)
    requires
        a <= b,
    ensures
        scaled_ratio(a, total) <= scaled_ratio(b, total),
{
    lemma_scaled_ratio_bounds(a, total);
    if total > 0 && b < total {
        assert(a * (PROGRESS_SCALE as nat) / total <= b * (PROGRESS_SCALE as nat) / total)
            by (nonlinear_arith)
            requires
                a <= b,
                total > 0,
        ;
    }
}

/// Progress stays within the scale even where the tool reports a frame
/// count or an output time beyond the declared total.
pub proof fn law_progress_is_clamped(
    frame: u64,
    time_micros: u64,
    total_frames: Option<u64>,
    duration_micros: u64,
)
    ensures
        0 <= progress_of(frame, time_micros, total_frames, duration_micros) <= PROGRESS_SCALE,
        total_frames is Some && total_frames->0 > 0 && frame >= total_frames->0 ==> progress_of(
            frame,
            time_micros,
            total_frames,
            duration_micros,
        ) == PROGRESS_SCALE,
        total_frames is None && duration_micros > 0 && time_micros >= duration_micros
            ==> progress_of(frame, time_micros, total_frames, duration_micros) == PROGRESS_SCALE,
{
    match total_frames {
        Some(total) => lemma_scaled_ratio_bounds(frame as nat, total as nat),
        None => lemma_scaled_ratio_bounds(time_micros as nat, duration_micros as nat),
    }
}

/// Progress does not fall from one sample to a later one: where neither the
/// frame counter nor the output time falls, neither does the progress.
pub proof fn law_progress_follows_order(
    frame: u64,
    time_micros: u64,
    later_frame: u64,
    later_time_micros: u64,
    total_frames: Option<u64>,
    duration_micros: u64,
)
    requires
        frame <= later_frame,
        time_micros <= later_time_micros,
    ensures
        progress_of(frame, time_micros, total_frames, duration_micros) <= progress_of(
            later_frame,
            later_time_micros,
            total_frames,
            duration_micros,
        ),
{
    match total_frames {
        Some(total) => lemma_scaled_ratio_monotonic(
            frame as nat,
            later_frame as nat,
            total as nat,
        ),
        None => {
            if time_micros > 0 {
                lemma_scaled_ratio_monotonic(
                    time_micros as nat,
                    later_time_micros as nat,
                    duration_micros as nat,
                );
            }
        },
    }
}

/// Computes `current` out of `total` on the progress scale.
pub fn ratio_on_scale(current: u64, total: u64) -> (r: u64)
    ensures
        r == scaled_ratio(current as nat, total as nat),
        r <= PROGRESS_SCALE,
{
    proof {
        lemma_scaled_ratio_bounds(current as nat, total as nat);
    }
    if total == 0 {
        0
    } else if current >= total {
        PROGRESS_SCALE
    } else {
        let wide: u128 = (current as u128) * (PROGRESS_SCALE as u128);
        (wide / (total as u128)) as u64
    }
}

/// Computes the progress of a job from its latest sample.
pub fn progress_fraction(
    frame: u64,
    time_micros: u64,
    total_frames: Option<u64>,
    duration_micros: u64,
) -> (r: u64)
    ensures
        r == progress_of(frame, time_micros, total_frames, duration_micros),
        r <= PROGRESS_SCALE,
{
    match total_frames {
        Some(total) => ratio_on_scale(frame, total),
        None => {
            if time_micros > 0 {
                ratio_on_scale(time_micros, duration_micros)
            } else {
                0
            }
        },
    }
}

/// True when a sample taken at `at_ms` has left the window by `now_ms`: its
/// age in whole seconds is above the window's length.
pub open spec fn is_stale(at_ms: u64, now_ms: u64) -> bool {
    now_ms >= at_ms && (now_ms - at_ms) / 1000 > HISTORY_SECONDS
}

/// The number of stale samples at the front of the history.
pub open spec fn stale_prefix(history: Seq<FrameSample>, now_ms: u64) -> nat
    decreases history.len(),
{
    if history.len() > 0 && is_stale(history[0].at_ms, now_ms) {
        1 + stale_prefix(history.drop_first(), now_ms)
    } else {
        0
    }
}

/// The history after a new sample: the sample joins at the back, then the
/// stale samples at the front leave.
pub open spec fn window_after(history: Seq<FrameSample>, sample: FrameSample) -> Seq<FrameSample> {
    let pushed = history.push(sample);
    pushed.skip(stale_prefix(pushed, sample.at_ms) as int)
}

/// `stale_prefix` is the position of the first sample that is not stale.
pub proof fn lemma_stale_prefix(history: Seq<FrameSample>, now_ms: u64, k: int)
    requires
        0 <= k <= history.len(),
        forall|j: int| 0 <= j < k ==> is_stale(#[trigger] history[j].at_ms, now_ms),
        k < history.len() ==> !is_stale(history[k].at_ms, now_ms),
    ensures
        stale_prefix(history, now_ms) == k,
    decreases k,
{
    if k > 0 {
        let rest = history.drop_first();
        assert forall|j: int| 0 <= j < k - 1 implies is_stale(#[trigger] rest[j].at_ms, now_ms) by {
            assert(rest[j] == history[j + 1]);
        }
        lemma_stale_prefix(rest, now_ms, k - 1);
    }
}

/// The new sample itself never leaves the window.
pub proof fn lemma_window_keeps_newest(history: Seq<FrameSample>, sample: FrameSample)
    ensures
        window_after(history, sample).len() >= 1,
        window_after(history, sample).last() == sample,
{
    let pushed = history.push(sample);
    lemma_stale_prefix_bound(pushed, sample.at_ms);
    assert(!is_stale(sample.at_ms, sample.at_ms));
    assert(pushed[pushed.len() - 1] == sample);
}

/// The stale prefix stops at the latest before the first fresh sample.
pub proof fn lemma_stale_prefix_bound(history: Seq<FrameSample>, now_ms: u64)
    ensures
        stale_prefix(history, now_ms) <= history.len(),
        forall|j: int|
            0 <= j < history.len() && !is_stale(#[trigger] history[j].at_ms, now_ms)
                ==> stale_prefix(history, now_ms) <= j,
    decreases history.len(),
{
    if history.len() > 0 && is_stale(history[0].at_ms, now_ms) {
        let rest = history.drop_first();
        lemma_stale_prefix_bound(rest, now_ms);
        assert forall|j: int|
            0 <= j < history.len() && !is_stale(
                #[trigger] history[j].at_ms,
                now_ms,
            ) implies stale_prefix(history, now_ms) <= j by {
            assert(rest[j - 1] == history[j]);
        }
    }
}

/// Adds a sample to the history and drops what has left the window.
pub fn slide_window(history: &mut Vec<FrameSample>, sample: FrameSample)
    ensures
        final(history)@ == window_after(old(history)@, sample),
        final(history)@.len() >= 1,
        final(history)@.last() == sample,
{
    history.push(sample);
    let now_ms: u64 = sample.at_ms;
    let n: usize = history.len();
    let mut k: usize = 0;
    while k < n && now_ms >= history[k].at_ms && (now_ms - history[k].at_ms) / 1000
        > HISTORY_SECONDS
        invariant
            n == history.len(),
            k <= n,
            history@ == old(history)@.push(sample),
            forall|j: int| 0 <= j < k ==> is_stale(#[trigger] history@[j].at_ms, now_ms),
        decreases n - k,
    {
        k = k + 1;
    }
    proof {
        lemma_stale_prefix(history@, now_ms, k as int);
        lemma_window_keeps_newest(old(history)@, sample);
    }
    let mut kept: Vec<FrameSample> = Vec::new();
    let mut i: usize = k;
    while i < n
        invariant
            n == history.len(),
            k <= i <= n,
            kept@ == history@.subrange(k as int, i as int),
        decreases n - i,
    {
        kept.push(history[i]);
        i = i + 1;
        assert(kept@ =~= history@.subrange(k as int, i as int));
    }
    assert(history@.subrange(k as int, n as int) =~= history@.skip(k as int));
    *history = kept;
}

/// The average rate over the window in thousandths of a frame per second: the
/// slope between the oldest and the newest sample. With fewer than two
/// samples, or with no time between them, it is the rate that the tool reports.
pub open spec fn average_rate(history: Seq<FrameSample>, reported_milli: u64) -> nat {
    if history.len() >= 2 && history.last().at_ms > history[0].at_ms {
        let elapsed_ms = (history.last().at_ms - history[0].at_ms) as nat;
        let frames = if history.last().frame >= history[0].frame {
            (history.last().frame - history[0].frame) as nat
        } else {
            0
        };
        frames * 1_000_000 / elapsed_ms
    } else {
        reported_milli as nat
    }
}

/// Computes the average rate over the window.
pub fn average_fps_milli(history: &Vec<FrameSample>, reported_milli: u64) -> (r: u128)
    ensures
        r == average_rate(history@, reported_milli),
{
    let n: usize = history.len();
    if n >= 2 && history[n - 1].at_ms > history[0].at_ms {
        let elapsed_ms: u64 = history[n - 1].at_ms - history[0].at_ms;
        let frames: u64 = if history[n - 1].frame >= history[0].frame {
            history[n - 1].frame - history[0].frame
        } else {
            0
        };
        let wide: u128 = (frames as u128) * 1_000_000u128;
        wide / (elapsed_ms as u128)
    } else {
        reported_milli as u128
    }
}

/// The estimated whole seconds that remain. By frames: the frames left over
/// the average rate, known only while frames are left and the rate is
/// positive. Without a frame total: the output time left, known only when
/// duration, output time and rate are all positive.
pub open spec fn remaining_seconds(
    frame: u64,
    time_micros: u64,
    total_frames: Option<u64>,
    duration_micros: u64,
    rate_milli: nat,
) -> Option<nat> {
    match total_frames {
        Some(total) => if total > frame && rate_milli > 0 {
            Some(((total - frame) as nat) * 1000 / rate_milli)
        } else {
            None
        },
        None => if duration_micros > 0 && time_micros > 0 && rate_milli > 0 {
            if duration_micros > time_micros {
                Some(((duration_micros - time_micros) / 1_000_000) as nat)
            } else {
                Some(0)
            }
        } else {
            None
        },
    }
}

/// The remaining time is at most the frames left, in thousandths, so it fits 64 bits
/// scaled down by any positive rate.
proof fn lemma_eta_fits(left: nat, rate_milli: nat)
    requires
        left <= u64::MAX,
        rate_milli > 0,
    ensures
        left * 1000 / rate_milli <= left * 1000,
        left * 1000 <= u128::MAX,
{
    assert(left * 1000 / rate_milli <= left * 1000) by (nonlinear_arith)
        requires
            rate_milli > 0,
    ;
}

/// Estimates the seconds that remain, saturating at the largest 64-bit number.
pub fn estimate_remaining(
    frame: u64,
    time_micros: u64,
    total_frames: Option<u64>,
    duration_micros: u64,
    rate_milli: u128,
) -> (r: Option<u64>)
    ensures
        match remaining_seconds(
            frame,
            time_micros,
            total_frames,
            duration_micros,
            rate_milli as nat,
        ) {
            Some(seconds) => r == Some(
                if seconds > u64::MAX {
                    u64::MAX
                } else {
                    seconds as u64
                },
            ),
            None => r is None,
        },
{
    match total_frames {
        Some(total) => {
            if total > frame && rate_milli > 0 {
                let left: u64 = total - frame;
                proof {
                    lemma_eta_fits(left as nat, rate_milli as nat);
                }
                let wide: u128 = (left as u128) * 1000u128 / rate_milli;
                if wide > u64::MAX as u128 {
                    Some(u64::MAX)
                } else {
                    Some(wide as u64)
                }
            } else {
                None
            }
        },
        None => {
            if duration_micros > 0 && time_micros > 0 && rate_milli > 0 {
                if duration_micros > time_micros {
                    Some((duration_micros - time_micros) / 1_000_000)
                } else {
                    Some(0)
                }
            } else {
                None
            }
        },
    }
}

} // verus!
