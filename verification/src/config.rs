//! Configuration snapshot consumed by the engine: capture-latency
//! compensation, the operator's fixed ("time-turning") offset, and the
//! auto-sync switch.

use vstd::prelude::*;

verus! {

/// An operator-declared fixed offset, composited onto every computed target
/// time. The `frames` component is denominated in the source's own frame
/// rate; all components may independently be positive or negative.
#[derive(Clone, Copy, Debug)]
pub struct TimeturnerOffset {
    pub hours: i64,
    pub minutes: i64,
    pub seconds: i64,
    pub frames: i64,
    pub milliseconds: i64,
}

impl TimeturnerOffset {
    /// The offset counts as active exactly when some component is non-zero.
    pub open spec fn spec_is_active(&self) -> bool {
        self.hours != 0 || self.minutes != 0 || self.seconds != 0 || self.frames != 0
            || self.milliseconds != 0
    }

    pub fn is_active(&self) -> (r: bool)
        ensures
            r == self.spec_is_active(),
    {
        self.hours != 0 || self.minutes != 0 || self.seconds != 0 || self.frames != 0
            || self.milliseconds != 0
    }
}

impl Default for TimeturnerOffset {
    /// The default offset is inactive: every component is zero.
    fn default() -> (r: Self)
        ensures
            r.hours == 0,
            r.minutes == 0,
            r.seconds == 0,
            r.frames == 0,
            r.milliseconds == 0,
            !r.spec_is_active(),
    {
        TimeturnerOffset { hours: 0, minutes: 0, seconds: 0, frames: 0, milliseconds: 0 }
    }
}

/// Engine configuration: a read-mostly snapshot whose fields are logically
/// independent of one another.
#[derive(Clone, Copy, Debug)]
pub struct Config {
    /// Capture-path latency in milliseconds, subtracted from raw jitter
    /// measurements.
    pub hardware_offset_ms: i64,
    pub timeturner_offset: TimeturnerOffset,
    /// Default micro-adjustment step in milliseconds.
    pub default_nudge_ms: i64,
    pub auto_sync_enabled: bool,
}

/// The built-in default for the micro-adjustment step: 2 ms.
pub fn default_nudge_ms() -> (r: i64)
    ensures
        r == 2,
{
    2
}

impl Default for Config {
    fn default() -> (r: Self)
        ensures
            r.hardware_offset_ms == 0,
            !r.timeturner_offset.spec_is_active(),
            r.default_nudge_ms == 2,
            !r.auto_sync_enabled,
    {
        Config {
            hardware_offset_ms: 0,
            timeturner_offset: TimeturnerOffset::default(),
            default_nudge_ms: default_nudge_ms(),
            auto_sync_enabled: false,
        }
    }
}

} // verus!
