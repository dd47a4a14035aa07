//! Target-time computation: composing a frame's embedded time with the
//! configured fixed offset into an absolute local instant, with the
//! frame-rate-dependent sub-second precision the source dictates.

use vstd::prelude::*;

verus! {

use crate::arith::{round_half_away, round_half_away_i128, round_half_up};
use crate::clock;
use crate::config::{Config, TimeturnerOffset};
use crate::sync_logic::LtcFrame;

/// The naive local timestamp could not be built or resolved: an embedded
/// time with out-of-range components, a frame rate of zero, a sub-second
/// part that spills past the second, an ambiguous or invalid local time
/// under the zone's rules, or an offset too large to represent.
#[derive(Clone, Copy, Debug, PartialEq, Eq, Structural)]
pub struct ClockArithmeticError;

/// The milliseconds encoded by `frames` frames at `millifps` thousandths of
/// a frame per second, rounded half away from zero.
pub open spec fn spec_frame_ms(frames: int, millifps: int) -> int
    recommends
        millifps > 0,
        frames >= 0,
{
    round_half_up(frames * 1_000_000, millifps)
}

/// Convert a nonnegative frame count to milliseconds at the given rate;
/// `None` exactly when the rate is zero.
pub fn frame_subsecond_ms(frames: u32, frame_rate_millifps: u32) -> (r: Option<i64>)
    ensures
        r is Some <==> frame_rate_millifps > 0,
        r matches Some(ms) ==> ms as int == spec_frame_ms(
            frames as int,
            frame_rate_millifps as int,
        ) && ms >= 0,
{
    if frame_rate_millifps == 0 {
        return None;
    }
    let scaled = frames as i128 * 1_000_000;
    let ms = round_half_away_i128(scaled, frame_rate_millifps as i128);
    Some(ms as i64)
}

/// A validated time of day: what the resolver needs to build an instant.
#[derive(Clone, Copy, Debug, PartialEq, Eq, Structural)]
pub struct TimeOfDay {
    pub hours: u32,
    pub minutes: u32,
    pub seconds: u32,
    pub milliseconds: u32,
}

/// A frame's embedded time can be built into a time of day exactly when
/// its components are in range and its sub-second part, at the frame's own
/// rate, stays below one second.
pub open spec fn spec_timecode_valid(frame: LtcFrame) -> bool {
    &&& frame.hours < 24
    &&& frame.minutes < 60
    &&& frame.seconds < 60
    &&& frame.frame_rate_millifps > 0
    &&& spec_frame_ms(frame.frames as int, frame.frame_rate_millifps as int) < 1000
}

/// The time of day a frame's embedded timecode denotes: hours, minutes and
/// seconds as carried, plus the frame number converted to milliseconds at
/// the frame's own rate. Errs exactly on an invalid timecode, rather than
/// guessing.
pub fn timecode_time_of_day(frame: &LtcFrame) -> (r: Result<TimeOfDay, ClockArithmeticError>)
    ensures
        r is Ok <==> spec_timecode_valid(*frame),
        r matches Ok(t) ==> {
            &&& t.hours == frame.hours
            &&& t.minutes == frame.minutes
            &&& t.seconds == frame.seconds
            &&& t.milliseconds as int == spec_frame_ms(
                frame.frames as int,
                frame.frame_rate_millifps as int,
            )
            &&& t.milliseconds < 1000
        },
{
    if frame.hours >= 24 || frame.minutes >= 60 || frame.seconds >= 60 {
        return Err(ClockArithmeticError);
    }
    let ms = match frame_subsecond_ms(frame.frames, frame.frame_rate_millifps) {
        Some(ms) => ms,
        None => return Err(ClockArithmeticError),
    };
    if ms >= 1000 {
        return Err(ClockArithmeticError);
    }
    Ok(
        TimeOfDay {
            hours: frame.hours,
            minutes: frame.minutes,
            seconds: frame.seconds,
            milliseconds: ms as u32,
        },
    )
}

/// The fixed offset's total shift in milliseconds: hours, minutes, seconds
/// and milliseconds components taken literally, and the frames component
/// denominated at the given frame rate.
pub open spec fn spec_offset_total_ms(offset: TimeturnerOffset, millifps: int) -> int
    recommends
        millifps > 0,
{
    offset.hours * 3_600_000 + offset.minutes * 60_000 + offset.seconds * 1000 + round_half_away(
        offset.frames * 1_000_000,
        millifps,
    ) + offset.milliseconds
}

/// Total shift of the configured fixed offset at the source's frame rate.
/// Errs exactly when the rate is zero (the frames component would be
/// undenominated) or the total cannot be represented.
pub fn offset_total_ms(offset: &TimeturnerOffset, frame_rate_millifps: u32) -> (r: Result<
    i64,
    ClockArithmeticError,
>)
    ensures
        frame_rate_millifps == 0 ==> r is Err,
        frame_rate_millifps > 0 ==> {
            let total = spec_offset_total_ms(*offset, frame_rate_millifps as int);
            &&& (r is Ok <==> i64::MIN <= total <= i64::MAX)
            &&& (r matches Ok(v) ==> v as int == total)
        },
{
    if frame_rate_millifps == 0 {
        return Err(ClockArithmeticError);
    }
    let frames_ms = round_half_away_i128(
        offset.frames as i128 * 1_000_000,
        frame_rate_millifps as i128,
    );
    let total = offset.hours as i128 * 3_600_000 + offset.minutes as i128 * 60_000
        + offset.seconds as i128 * 1000 + frames_ms + offset.milliseconds as i128;
    if total < i64::MIN as i128 || total > i64::MAX as i128 {
        return Err(ClockArithmeticError);
    }
    Ok(total as i64)
}

/// Shift a resolved base instant by a total offset, both in epoch
/// milliseconds. Errs exactly when the shifted instant cannot be
/// represented.
pub fn target_epoch_ms(base_epoch_ms: i64, offset_ms: i64) -> (r: Result<
    i64,
    ClockArithmeticError,
>)
    ensures
        r is Ok <==> i64::MIN <= base_epoch_ms as int + offset_ms as int <= i64::MAX,
        r matches Ok(v) ==> v as int == base_epoch_ms as int + offset_ms as int,
{
    let sum = base_epoch_ms as i128 + offset_ms as i128;
    if sum < i64::MIN as i128 || sum > i64::MAX as i128 {
        return Err(ClockArithmeticError);
    }
    Ok(sum as i64)
}

/// Measure the raw clock delta of a frame: the local wall clock now, minus
/// the absolute instant the frame's embedded timecode denotes on today's
/// local date — positive when the local clock leads the source. `None` on
/// an invalid timecode or an unresolvable local time; the value itself
/// depends on the instant of the call, so nothing is promised of it.
pub fn measure_clock_delta(frame: &LtcFrame) -> (r: Option<i64>)
    ensures
        !spec_timecode_valid(*frame) ==> r is None,
{
    let tod = match timecode_time_of_day(frame) {
        Ok(t) => t,
        Err(_) => return None,
    };
    let embedded = match clock::resolve_local_today(
        tod.hours,
        tod.minutes,
        tod.seconds,
        tod.milliseconds,
    ) {
        Some(b) => b,
        None => return None,
    };
    let now = clock::now_epoch_ms();
    Some(crate::arith::clamp_to_i64(now as i128 - embedded as i128))
}

/// The absolute local instant (epoch milliseconds) that the system clock
/// should be set to: today's local date at the frame's embedded time,
/// shifted by the configured fixed offset.
///
/// Errs on an invalid timecode, an unrepresentable offset total, an
/// ambiguous or invalid naive local time (a DST transition), or an
/// unrepresentable target — never panics and never guesses. The resolved
/// base depends on the machine's zone and date, so the target is pinned
/// only relative to it: `target_epoch_ms` states the exact relation.
pub fn calculate_target_time(frame: &LtcFrame, config: &Config) -> (r: Result<
    i64,
    ClockArithmeticError,
>)
    ensures
        !spec_timecode_valid(*frame) ==> r is Err,
        frame.frame_rate_millifps > 0 && !(i64::MIN <= spec_offset_total_ms(
            config.timeturner_offset,
            frame.frame_rate_millifps as int,
        ) <= i64::MAX) ==> r is Err,
        r is Ok ==> spec_timecode_valid(*frame) && i64::MIN <= spec_offset_total_ms(
            config.timeturner_offset,
            frame.frame_rate_millifps as int,
        ) <= i64::MAX,
{
    let tod = timecode_time_of_day(frame)?;
    let offset_ms = offset_total_ms(&config.timeturner_offset, frame.frame_rate_millifps)?;
    let base = match clock::resolve_local_today(
        tod.hours,
        tod.minutes,
        tod.seconds,
        tod.milliseconds,
    ) {
        Some(b) => b,
        None => return Err(ClockArithmeticError),
    };
    target_epoch_ms(base, offset_ms)
}

} // verus!
