//! The timecode synchronization state: the latest decoded LTC frame, the
//! lock/free counters, the bounded jitter history, the smoothed clock-delta
//! estimate, and the throttled wall-clock-match flag.

use vstd::prelude::*;

verus! {

use crate::arith::{
    clamp_i64,
    clamp_to_i64,
    round_half_away,
    round_half_away_i128,
    trunc_div,
    trunc_div_i128,
};
use crate::clock;
use crate::config::Config;
use std::collections::VecDeque;

/// Jitter samples kept, oldest evicted first once this many are stored.
pub const JITTER_CAPACITY: usize = 20;

/// The drift estimate is held in thousandths of a millisecond, so that the
/// smoothing average loses no more than half a microsecond per step.
pub const DRIFT_SCALE: i64 = 1000;

/// Decoder confidence for one frame: `Lock` means the decoder tracks a valid
/// reference; `Free` means it is coasting without one.
#[derive(Clone, Copy, Debug, PartialEq, Eq, Structural)]
pub enum FrameStatus {
    Lock,
    Free,
}

impl FrameStatus {
    /// The wire spelling of the status, as the decoder prints it.
    pub fn label(&self) -> (r: String)
        ensures
            *self == FrameStatus::Lock ==> r@ == "LOCK"@,
            *self == FrameStatus::Free ==> r@ == "FREE"@,
    {
        match self {
            FrameStatus::Lock => String::from_str("LOCK"),
            FrameStatus::Free => String::from_str("FREE"),
        }
    }
}

/// One decoded LTC frame plus the local instant at which it arrived.
///
/// The frame rate is held in thousandths of a frame per second (25 fps is
/// `25_000`), so that rates such as 29.97 stay exact. Field values are taken
/// from the decoder as-is; out-of-range values are tolerated and rejected
/// only where an actual time must be built from them.
#[derive(Clone, Copy, Debug)]
pub struct LtcFrame {
    pub status: FrameStatus,
    pub hours: u32,
    pub minutes: u32,
    pub seconds: u32,
    pub frames: u32,
    pub frame_rate_millifps: u32,
    /// Arrival instant, in milliseconds since the Unix epoch.
    pub timestamp_ms: i64,
}

impl LtcFrame {
    /// Whether the frame's embedded time equals the given wall-clock
    /// hour/minute/second reading.
    pub fn matches_hms(&self, hour: u32, minute: u32, second: u32) -> (r: bool)
        ensures
            r == (self.hours == hour && self.minutes == minute && self.seconds == second),
    {
        self.hours == hour && self.minutes == minute && self.seconds == second
    }

    /// Compare just HH:MM:SS against the local wall clock now. The result
    /// depends on the instant of the call, so nothing further is promised.
    pub fn matches_system_time(&self) -> bool {
        let (hour, minute, second) = clock::local_hms_now();
        self.matches_hms(hour, minute, second)
    }
}

/// Throttled comparison of the embedded timecode against the wall clock.
#[derive(Clone, Copy, Debug, PartialEq, Eq, Structural)]
pub enum MatchStatus {
    Unknown,
    InSync,
    OutOfSync,
}

impl MatchStatus {
    /// The display spelling of the match status.
    pub fn label(&self) -> (r: String)
        ensures
            *self == MatchStatus::Unknown ==> r@ == "UNKNOWN"@,
            *self == MatchStatus::InSync ==> r@ == "IN SYNC"@,
            *self == MatchStatus::OutOfSync ==> r@ == "OUT OF SYNC"@,
    {
        match self {
            MatchStatus::Unknown => String::from_str("UNKNOWN"),
            MatchStatus::InSync => String::from_str("IN SYNC"),
            MatchStatus::OutOfSync => String::from_str("OUT OF SYNC"),
        }
    }
}

/// One step of the smoothed clock-delta estimate, in scaled units: the new
/// sample weighs one tenth, the previous estimate nine tenths, rounded half
/// away from zero and clamped into `i64`.
pub open spec fn drift_after(prev: Option<i64>, delta_ms: int) -> int {
    match prev {
        None => clamp_i64(delta_ms * DRIFT_SCALE as int),
        Some(p) => clamp_i64(
            round_half_away(delta_ms * DRIFT_SCALE as int + 9 * p as int, 10),
        ),
    }
}

/// The jitter history after one more sample: the oldest entry is evicted
/// exactly when the history is at capacity.
pub open spec fn history_push(h: Seq<i64>, sample: i64) -> Seq<i64> {
    (if h.len() == JITTER_CAPACITY { h.skip(1) } else { h }).push(sample)
}

/// The jitter history that results from recording a whole sequence of
/// samples into an initially empty state.
pub open spec fn history_after(samples: Seq<i64>) -> Seq<i64>
    decreases samples.len(),
{
    if samples.len() == 0 {
        Seq::empty()
    } else {
        history_push(history_after(samples.drop_last()), samples.last())
    }
}

/// The jitter history is a bounded FIFO window: however many samples are
/// recorded into a fresh state, at most `JITTER_CAPACITY` are kept, and
/// they are exactly the most recent ones in arrival order — once a
/// twenty-first sample arrives, the oldest is the one evicted.
pub proof fn lemma_jitter_history_is_bounded_fifo(samples: Seq<i64>)
    ensures
        history_after(samples).len() <= JITTER_CAPACITY,
        samples.len() <= JITTER_CAPACITY ==> history_after(samples) == samples,
        samples.len() > JITTER_CAPACITY ==> history_after(samples) == samples.skip(
            samples.len() - JITTER_CAPACITY,
        ),
    decreases samples.len(),
{
    if samples.len() == 0 {
        assert(history_after(samples) =~= samples);
    } else {
        let prev = samples.drop_last();
        lemma_jitter_history_is_bounded_fifo(prev);
        let h = history_after(prev);
        if prev.len() < JITTER_CAPACITY {
            assert(h.push(samples.last()) =~= samples);
        } else if prev.len() == JITTER_CAPACITY {
            assert(h == prev);
            assert(h.skip(1).push(samples.last()) =~= samples.skip(1));
        } else {
            assert(h == prev.skip(prev.len() - JITTER_CAPACITY));
            assert(h.len() == JITTER_CAPACITY);
            assert(h.skip(1).push(samples.last()) =~= samples.skip(
                samples.len() - JITTER_CAPACITY,
            ));
        }
    }
}

/// Sum of a sequence of samples.
pub open spec fn seq_sum(s: Seq<i64>) -> int
    decreases s.len(),
{
    if s.len() == 0 {
        0
    } else {
        seq_sum(s.drop_last()) + s.last()
    }
}

/// Truncated arithmetic mean of a sample sequence, zero when empty.
pub open spec fn mean_of(s: Seq<i64>) -> int {
    if s.len() == 0 {
        0
    } else {
        trunc_div(seq_sum(s), s.len() as int)
    }
}

/// The shared synchronization state. One instance exists for the process
/// lifetime; `update` is the single mutation entry point for frame-derived
/// fields, and the statistics-recording methods feed the estimators.
#[derive(Debug)]
pub struct LtcState {
    pub latest: Option<LtcFrame>,
    /// Frames seen in `Lock` state; never reset, saturating at the type's
    /// maximum.
    pub lock_count: u64,
    /// Frames seen in `Free` state; never reset, saturating likewise.
    pub free_count: u64,
    /// The last up-to-20 raw jitter offset measurements, in milliseconds.
    pub offset_history: VecDeque<i64>,
    /// Smoothed clock delta in thousandths of a millisecond (`DRIFT_SCALE`
    /// units); `None` before the first sample or after a loss of lock.
    pub ewma_clock_delta: Option<i64>,
    pub last_match_status: MatchStatus,
    /// Epoch second of the last wall-clock-match recomputation.
    pub last_match_check: i64,
}

/// How `update` transforms the state: the full relation between the state
/// before (`pre`) and after (`post`) observing `frame` at epoch second
/// `now_secs` with local wall-clock reading `hour:minute:second`.
pub open spec fn update_relation(
    pre: LtcState,
    frame: LtcFrame,
    now_secs: int,
    hour: u32,
    minute: u32,
    second: u32,
    post: LtcState,
) -> bool {
    &&& post.latest == Some(frame)
    &&& (frame.status == FrameStatus::Lock ==> {
        &&& post.lock_count == clamp_u64_inc(pre.lock_count)
        &&& post.free_count == pre.free_count
        &&& post.offset_history@ == pre.offset_history@
        &&& post.ewma_clock_delta == pre.ewma_clock_delta
        &&& (if now_secs - pre.last_match_check >= 5 {
            &&& post.last_match_check == now_secs
            &&& post.last_match_status == (if frame.hours == hour && frame.minutes == minute
                && frame.seconds == second {
                MatchStatus::InSync
            } else {
                MatchStatus::OutOfSync
            })
        } else {
            &&& post.last_match_check == pre.last_match_check
            &&& post.last_match_status == pre.last_match_status
        })
    })
    &&& (frame.status == FrameStatus::Free ==> {
        &&& post.free_count == clamp_u64_inc(pre.free_count)
        &&& post.lock_count == pre.lock_count
        &&& post.offset_history@ == Seq::<i64>::empty()
        &&& post.ewma_clock_delta is None
        &&& post.last_match_status == MatchStatus::Unknown
        &&& post.last_match_check == pre.last_match_check
    })
}

/// A counter bumped by one, saturating at the top of `u64`.
pub open spec fn clamp_u64_inc(c: u64) -> u64 {
    if c == u64::MAX {
        c
    } else {
        (c + 1) as u64
    }
}

impl LtcState {
    /// A fresh state: nothing seen, nothing estimated, match unknown.
    pub fn new() -> (r: Self)
        ensures
            r.latest is None,
            r.lock_count == 0,
            r.free_count == 0,
            r.offset_history@ == Seq::<i64>::empty(),
            r.ewma_clock_delta is None,
            r.last_match_status == MatchStatus::Unknown,
            r.last_match_check == 0,
    {
        LtcState {
            latest: None,
            lock_count: 0,
            free_count: 0,
            offset_history: VecDeque::with_capacity(JITTER_CAPACITY),
            ewma_clock_delta: None,
            last_match_status: MatchStatus::Unknown,
            last_match_check: 0,
        }
    }

    /// Record one measured jitter offset in milliseconds, evicting the
    /// oldest sample once the history holds `JITTER_CAPACITY` entries.
    pub fn record_offset(&mut self, offset_ms: i64)
        ensures
            final(self).offset_history@ == history_push(old(self).offset_history@, offset_ms),
            final(self).latest == old(self).latest,
            final(self).lock_count == old(self).lock_count,
            final(self).free_count == old(self).free_count,
            final(self).ewma_clock_delta == old(self).ewma_clock_delta,
            final(self).last_match_status == old(self).last_match_status,
            final(self).last_match_check == old(self).last_match_check,
    {
        if self.offset_history.len() == JITTER_CAPACITY {
            let _ = self.offset_history.pop_front();
        }
        self.offset_history.push_back(offset_ms);
    }

    /// Measure and record the jitter offset of the latest frame against the
    /// given instant: the frame's transit age (`now_ms` minus its arrival
    /// stamp) less the configured capture-path latency. Records only while
    /// a locked frame is current; clamps instead of overflowing.
    pub fn record_jitter_measurement(&mut self, now_ms: i64, hardware_offset_ms: i64)
        ensures
            final(self).offset_history@ == match old(self).latest {
                Some(f) => if f.status == FrameStatus::Lock {
                    history_push(
                        old(self).offset_history@,
                        clamp_i64(
                            now_ms as int - f.timestamp_ms as int - hardware_offset_ms as int,
                        ) as i64,
                    )
                } else {
                    old(self).offset_history@
                },
                None => old(self).offset_history@,
            },
            final(self).latest == old(self).latest,
            final(self).lock_count == old(self).lock_count,
            final(self).free_count == old(self).free_count,
            final(self).ewma_clock_delta == old(self).ewma_clock_delta,
            final(self).last_match_status == old(self).last_match_status,
            final(self).last_match_check == old(self).last_match_check,
    {
        let (is_lock, stamp) = match &self.latest {
            Some(f) => (
                match f.status {
                    FrameStatus::Lock => true,
                    FrameStatus::Free => false,
                },
                f.timestamp_ms,
            ),
            None => (false, 0),
        };
        if is_lock {
            let measured = now_ms as i128 - stamp as i128 - hardware_offset_ms as i128;
            let clamped = clamp_to_i64(measured);
            self.record_offset(clamped);
        }
    }

    /// Fold one measured clock delta (milliseconds) into the smoothed
    /// estimate: a fresh estimate adopts the sample; an existing one moves a
    /// tenth of the way toward it.
    pub fn record_and_update_ewma_clock_delta(&mut self, delta_ms: i64)
        ensures
            final(self).ewma_clock_delta is Some,
            final(self).ewma_clock_delta.unwrap() as int == drift_after(
                old(self).ewma_clock_delta,
                delta_ms as int,
            ),
            final(self).latest == old(self).latest,
            final(self).lock_count == old(self).lock_count,
            final(self).free_count == old(self).free_count,
            final(self).offset_history@ == old(self).offset_history@,
            final(self).last_match_status == old(self).last_match_status,
            final(self).last_match_check == old(self).last_match_check,
    {
        let scaled = delta_ms as i128 * DRIFT_SCALE as i128;
        match self.ewma_clock_delta {
            None => {
                self.ewma_clock_delta = Some(clamp_to_i64(scaled));
            },
            Some(p) => {
                let stepped = round_half_away_i128(scaled + 9 * p as i128, 10);
                self.ewma_clock_delta = Some(clamp_to_i64(stepped));
            },
        }
    }

    /// Clear all stored jitter measurements.
    pub fn clear_offsets(&mut self)
        ensures
            final(self).offset_history@ == Seq::<i64>::empty(),
            final(self).latest == old(self).latest,
            final(self).lock_count == old(self).lock_count,
            final(self).free_count == old(self).free_count,
            final(self).ewma_clock_delta == old(self).ewma_clock_delta,
            final(self).last_match_status == old(self).last_match_status,
            final(self).last_match_check == old(self).last_match_check,
    {
        self.offset_history.clear();
    }

    /// Observe one frame at a known clock reading: bump the matching
    /// counter; on a locked frame, recompute the wall-clock match at most
    /// once per five seconds; on a free-running frame, drop all accumulated
    /// statistics, since the loss of lock invalidates them.
    pub fn update_at(
        &mut self,
        frame: LtcFrame,
        now_secs: i64,
        hour: u32,
        minute: u32,
        second: u32,
    )
        ensures
            update_relation(*old(self), frame, now_secs as int, hour, minute, second, *final(self)),
    {
        match frame.status {
            FrameStatus::Lock => {
                if self.lock_count < u64::MAX {
                    self.lock_count = self.lock_count + 1;
                }
                let elapsed: i128 = now_secs as i128 - self.last_match_check as i128;
                if elapsed >= 5 {
                    self.last_match_status = if frame.matches_hms(hour, minute, second) {
                        MatchStatus::InSync
                    } else {
                        MatchStatus::OutOfSync
                    };
                    self.last_match_check = now_secs;
                }
            },
            FrameStatus::Free => {
                if self.free_count < u64::MAX {
                    self.free_count = self.free_count + 1;
                }
                self.clear_offsets();
                self.ewma_clock_delta = None;
                self.last_match_status = MatchStatus::Unknown;
            },
        }
        self.latest = Some(frame);
    }

    /// Observe one frame against the wall clock now. The clock reading is
    /// taken inside the call, so the match recomputation is promised only up
    /// to some valid local reading; everything else is exact.
    pub fn update(&mut self, frame: LtcFrame)
        ensures
            exists|now_secs: i64, hour: u32, minute: u32, second: u32|
                hour < 24 && minute < 60 && second < 60 && update_relation(
                    *old(self),
                    frame,
                    now_secs as int,
                    hour,
                    minute,
                    second,
                    *final(self),
                ),
            final(self).latest == Some(frame),
            frame.status == FrameStatus::Free ==> {
                &&& final(self).free_count == clamp_u64_inc(old(self).free_count)
                &&& final(self).lock_count == old(self).lock_count
                &&& final(self).offset_history@ == Seq::<i64>::empty()
                &&& final(self).ewma_clock_delta is None
                &&& final(self).last_match_status == MatchStatus::Unknown
            },
            frame.status == FrameStatus::Lock ==> {
                &&& final(self).lock_count == clamp_u64_inc(old(self).lock_count)
                &&& final(self).free_count == old(self).free_count
                &&& final(self).offset_history@ == old(self).offset_history@
                &&& final(self).ewma_clock_delta == old(self).ewma_clock_delta
            },
    {
        let now_ms = clock::now_epoch_ms();
        let now_secs = epoch_ms_to_secs(now_ms);
        let (hour, minute, second) = clock::local_hms_now();
        self.update_at(frame, now_secs, hour, minute, second);
    }

    /// Truncated average of the stored jitter history, in milliseconds;
    /// zero when no samples are stored.
    pub fn average_jitter(&self) -> (r: i64)
        ensures
            r as int == mean_of(self.offset_history@),
    {
        let n = self.offset_history.len();
        if n == 0 {
            return 0;
        }
        let mut sum: i128 = 0;
        let mut i: usize = 0;
        while i < n
            invariant
                i <= n,
                n == self.offset_history@.len(),
                sum == seq_sum(self.offset_history@.take(i as int)),
                (i as int) * (i64::MIN as int) <= sum <= (i as int) * (i64::MAX as int),
            decreases n - i,
        {
            let x = self.offset_history[i];
            proof {
                assert(self.offset_history@.take(i as int + 1).drop_last()
                    == self.offset_history@.take(i as int));
                assert(((i + 1) as int) * (i64::MIN as int) <= sum + x as int <= ((i + 1) as int)
                    * (i64::MAX as int)) by (nonlinear_arith)
                    requires
                        (i as int) * (i64::MIN as int) <= sum <= (i as int) * (i64::MAX as int),
                        i64::MIN as int <= x as int <= i64::MAX as int,
                ;
            }
            sum = sum + x as i128;
            i = i + 1;
        }
        proof {
            assert(self.offset_history@.take(n as int) == self.offset_history@);
        }
        let q = trunc_div_i128(sum, n as i128);
        proof {
            if sum >= 0 {
                vstd::arithmetic::div_mod::lemma_div_is_ordered(
                    sum as int,
                    (n as int) * (i64::MAX as int),
                    n as int,
                );
                vstd::arithmetic::div_mod::lemma_div_by_multiple(i64::MAX as int, n as int);
                vstd::arithmetic::div_mod::lemma_div_pos_is_pos(sum as int, n as int);
            } else {
                vstd::arithmetic::div_mod::lemma_div_is_ordered(
                    -(sum as int),
                    (n as int) * (-(i64::MIN as int)),
                    n as int,
                );
                vstd::arithmetic::div_mod::lemma_div_by_multiple(-(i64::MIN as int), n as int);
                vstd::arithmetic::div_mod::lemma_div_pos_is_pos(-(sum as int), n as int);
            }
        }
        q as i64
    }

    /// The average jitter converted to whole frames of the latest frame's
    /// rate, rounded half away from zero; zero when no frame has been seen
    /// or its rate is zero.
    pub fn average_frames(&self) -> (r: i64)
        ensures
            r as int == match self.latest {
                None => 0int,
                Some(f) => if f.frame_rate_millifps == 0 {
                    0int
                } else {
                    clamp_i64(
                        round_half_away(
                            mean_of(self.offset_history@) * f.frame_rate_millifps as int,
                            1_000_000,
                        ),
                    )
                },
            },
    {
        match &self.latest {
            None => 0,
            Some(f) => {
                if f.frame_rate_millifps == 0 {
                    return 0;
                }
                let avg = self.average_jitter();
                proof {
                    assert((i64::MIN as int) * (u32::MAX as int) <= (avg as int)
                        * (f.frame_rate_millifps as int) <= (i64::MAX as int) * (u32::MAX as int))
                        by (nonlinear_arith)
                        requires
                            i64::MIN as int <= avg as int <= i64::MAX as int,
                            0 <= f.frame_rate_millifps as int <= u32::MAX as int,
                    ;
                }
                let scaled = avg as i128 * f.frame_rate_millifps as i128;
                let r = round_half_away_i128(scaled, 1_000_000);
                clamp_to_i64(r)
            },
        }
    }

    /// The smoothed clock delta rounded to whole milliseconds, zero while no
    /// estimate exists.
    pub fn get_ewma_clock_delta(&self) -> (r: i64)
        ensures
            r as int == match self.ewma_clock_delta {
                None => 0int,
                Some(e) => round_half_away(e as int, DRIFT_SCALE as int),
            },
    {
        match self.ewma_clock_delta {
            None => 0,
            Some(e) => {
                let r = round_half_away_i128(e as i128, DRIFT_SCALE as i128);
                proof {
                    crate::arith::lemma_round_half_up_le(
                        (if e >= 0 { e as int } else { -(e as int) }),
                        DRIFT_SCALE as int,
                        (if e >= 0 { e as int } else { -(e as int) }),
                    );
                    assert((if e >= 0 { e as int } else { -(e as int) }) <= (if e >= 0 {
                        e as int
                    } else {
                        -(e as int)
                    }) * (DRIFT_SCALE as int)) by (nonlinear_arith)
                        requires
                            DRIFT_SCALE == 1000,
                    ;
                }
                r as i64
            },
        }
    }

    /// Share of all observed frames that arrived in `Lock` state, in tenths
    /// of a percent, rounded half up; zero when nothing has been observed.
    pub fn lock_ratio(&self) -> (r: u32)
        ensures
            r as int == (if self.lock_count == 0 && self.free_count == 0 {
                0int
            } else {
                round_half_away(
                    self.lock_count as int * 1000,
                    self.lock_count as int + self.free_count as int,
                )
            }),
            r <= 1000,
    {
        if self.lock_count == 0 && self.free_count == 0 {
            return 0;
        }
        let total = self.lock_count as i128 + self.free_count as i128;
        let r = round_half_away_i128(self.lock_count as i128 * 1000, total);
        proof {
            crate::arith::lemma_round_half_up_le(
                self.lock_count as int * 1000,
                self.lock_count as int + self.free_count as int,
                1000,
            );
            assert(self.lock_count as int * 1000 <= 1000 * (self.lock_count as int
                + self.free_count as int)) by (nonlinear_arith)
                requires
                    self.free_count >= 0,
            ;
        }
        r as u32
    }

    /// The current wall-clock-match status.
    pub fn timecode_match(&self) -> (r: MatchStatus)
        ensures
            r == self.last_match_status,
    {
        self.last_match_status
    }

    /// The latest observed frame, if any.
    pub fn latest_frame(&self) -> (r: Option<LtcFrame>)
        ensures
            r == self.latest,
    {
        self.latest
    }
}

/// Epoch milliseconds to whole epoch seconds, flooring (the second that the
/// instant falls in).
pub fn epoch_ms_to_secs(ms: i64) -> (r: i64)
    ensures
        r as int == (ms as int) / 1000,
{
    if ms >= 0 {
        (ms as u64 / 1000) as i64
    } else {
        let neg = -(ms as i128);
        let q = (neg + 999) / 1000;
        proof {
            let q0 = (ms as int) / 1000;
            let r0 = (ms as int) % 1000;
            vstd::arithmetic::div_mod::lemma_fundamental_div_mod(ms as int, 1000);
            vstd::arithmetic::div_mod::lemma_fundamental_div_mod_converse(
                -(ms as int) + 999,
                1000,
                -q0,
                999 - r0,
            );
            vstd::arithmetic::div_mod::lemma_div_is_ordered(
                -(ms as int) + 999,
                0x8000_0000_0000_0000int + 999,
                1000,
            );
        }
        (-q) as i64
    }
}

/// Classify a measured clock delta, honoring an operator-declared fixed
/// offset: with an active offset the operator has declared an intentional
/// skew and measured drift must not fight it.
#[derive(Clone, Copy, Debug, PartialEq, Eq, Structural)]
pub enum SyncStatus {
    TimeTurning,
    InSync,
    ClockAhead,
    ClockBehind,
}

impl SyncStatus {
    /// The display spelling of the sync status.
    pub fn label(&self) -> (r: String)
        ensures
            *self == SyncStatus::TimeTurning ==> r@ == "TIMETURNING"@,
            *self == SyncStatus::InSync ==> r@ == "IN SYNC"@,
            *self == SyncStatus::ClockAhead ==> r@ == "CLOCK AHEAD"@,
            *self == SyncStatus::ClockBehind ==> r@ == "CLOCK BEHIND"@,
    {
        match self {
            SyncStatus::TimeTurning => String::from_str("TIMETURNING"),
            SyncStatus::InSync => String::from_str("IN SYNC"),
            SyncStatus::ClockAhead => String::from_str("CLOCK AHEAD"),
            SyncStatus::ClockBehind => String::from_str("CLOCK BEHIND"),
        }
    }
}

/// What `get_sync_status` returns for every input: an active fixed offset
/// always reads as time-turning; otherwise a delta within eight
/// milliseconds of zero is in sync, a delta above ten means the local clock
/// leads, and everything else (including the 8..=10 dead zone and all
/// deltas below -8) means the local clock lags.
pub open spec fn spec_sync_status(delta_ms: int, offset_active: bool) -> SyncStatus {
    if offset_active {
        SyncStatus::TimeTurning
    } else if -8 <= delta_ms <= 8 {
        SyncStatus::InSync
    } else if delta_ms > 10 {
        SyncStatus::ClockAhead
    } else {
        SyncStatus::ClockBehind
    }
}

/// Classify a measured clock delta against the configured fixed offset.
pub fn get_sync_status(delta_ms: i64, config: &Config) -> (r: SyncStatus)
    ensures
        r == spec_sync_status(delta_ms as int, config.timeturner_offset.spec_is_active()),
{
    if config.timeturner_offset.is_active() {
        SyncStatus::TimeTurning
    } else if -8 <= delta_ms && delta_ms <= 8 {
        SyncStatus::InSync
    } else if delta_ms > 10 {
        SyncStatus::ClockAhead
    } else {
        SyncStatus::ClockBehind
    }
}

/// Quality of the measured jitter.
#[derive(Clone, Copy, Debug, PartialEq, Eq, Structural)]
pub enum JitterStatus {
    Good,
    Average,
    Bad,
}

impl JitterStatus {
    /// The display spelling of the jitter status.
    pub fn label(&self) -> (r: String)
        ensures
            *self == JitterStatus::Good ==> r@ == "GOOD"@,
            *self == JitterStatus::Average ==> r@ == "AVERAGE"@,
            *self == JitterStatus::Bad ==> r@ == "BAD"@,
    {
        match self {
            JitterStatus::Good => String::from_str("GOOD"),
            JitterStatus::Average => String::from_str("AVERAGE"),
            JitterStatus::Bad => String::from_str("BAD"),
        }
    }
}

/// What `get_jitter_status` returns for every input: a magnitude under ten
/// milliseconds is good, under forty is average, anything else is bad.
pub open spec fn spec_jitter_status(jitter_ms: int) -> JitterStatus {
    if -10 < jitter_ms < 10 {
        JitterStatus::Good
    } else if -40 < jitter_ms < 40 {
        JitterStatus::Average
    } else {
        JitterStatus::Bad
    }
}

/// Classify the magnitude of a measured jitter value.
pub fn get_jitter_status(jitter_ms: i64) -> (r: JitterStatus)
    ensures
        r == spec_jitter_status(jitter_ms as int),
{
    if -10 < jitter_ms && jitter_ms < 10 {
        JitterStatus::Good
    } else if -40 < jitter_ms && jitter_ms < 40 {
        JitterStatus::Average
    } else {
        JitterStatus::Bad
    }
}

} // verus!
