use chrono::{Local, Timelike, Utc};
use ntp_timeturner::config::{Config, TimeturnerOffset};
use ntp_timeturner::sync_logic::{
    get_jitter_status, get_sync_status, FrameStatus, LtcFrame, LtcState, MatchStatus,
};

fn get_test_frame(status: FrameStatus, h: u32, m: u32, s: u32) -> LtcFrame {
    LtcFrame {
        status,
        hours: h,
        minutes: m,
        seconds: s,
        frames: 0,
        frame_rate_millifps: 25_000,
        timestamp_ms: Utc::now().timestamp_millis(),
    }
}

#[test]
fn test_ltc_frame_matches_system_time() {
    let now = Local::now();
    let frame = get_test_frame(FrameStatus::Lock, now.hour(), now.minute(), now.second());
    assert!(frame.matches_system_time());
}

#[test]
fn test_ltc_frame_does_not_match_system_time() {
    let now = Local::now();
    // Create a time that is one hour ahead, wrapping around 23:00
    let different_hour = (now.hour() + 1) % 24;
    let frame = get_test_frame(FrameStatus::Lock, different_hour, now.minute(), now.second());
    assert!(!frame.matches_system_time());
}

#[test]
fn test_ltc_state_update_lock() {
    let mut state = LtcState::new();
    let frame = get_test_frame(FrameStatus::Lock, 10, 20, 30);
    state.update(frame);
    assert_eq!(state.lock_count, 1);
    assert_eq!(state.free_count, 0);
    assert!(state.latest.is_some());
}

#[test]
fn test_ltc_state_update_free() {
    let mut state = LtcState::new();
    state.record_offset(100);
    assert!(!state.offset_history.is_empty());

    let frame = get_test_frame(FrameStatus::Free, 10, 20, 30);
    state.update(frame);
    assert_eq!(state.lock_count, 0);
    assert_eq!(state.free_count, 1);
    assert!(state.offset_history.is_empty()); // Offsets should be cleared
    assert_eq!(state.last_match_status.label(), "UNKNOWN");
}

#[test]
fn test_offset_history_management() {
    let mut state = LtcState::new();
    for i in 0..25 {
        state.record_offset(i);
    }
    assert_eq!(state.offset_history.len(), 20);
    assert_eq!(*state.offset_history.front().unwrap(), 5); // 0-4 are pushed out
    assert_eq!(*state.offset_history.back().unwrap(), 24);
}

#[test]
fn test_timecode_match_status_in_sync() {
    let mut state = LtcState::new();
    state.last_match_check = 0; // Force check to run

    let now = Local::now();
    let frame_in_sync = get_test_frame(FrameStatus::Lock, now.hour(), now.minute(), now.second());
    state.update(frame_in_sync);
    assert_eq!(state.timecode_match().label(), "IN SYNC");
}

#[test]
fn test_timecode_match_status_out_of_sync() {
    let mut state = LtcState::new();
    state.last_match_check = 0; // Force check to run

    let now = Local::now();
    let different_hour = (now.hour() + 1) % 24;
    let frame_out_of_sync =
        get_test_frame(FrameStatus::Lock, different_hour, now.minute(), now.second());
    state.update(frame_out_of_sync);

    assert_eq!(state.timecode_match().label(), "OUT OF SYNC");
}

#[test]
fn test_timecode_match_throttling() {
    let mut state = LtcState::new();
    let now = Local::now();

    // First call establishes the out-of-sync status.
    state.last_match_check = 0;
    let frame_out_of_sync =
        get_test_frame(FrameStatus::Lock, (now.hour() + 1) % 24, now.minute(), now.second());
    state.update(frame_out_of_sync.clone());
    assert_eq!(
        state.timecode_match().label(),
        "OUT OF SYNC",
        "Initial status should be out of sync"
    );

    // Second call, immediately. Check should be throttled.
    // Status should not change, even though we pass an in-sync frame.
    let frame_in_sync = get_test_frame(FrameStatus::Lock, now.hour(), now.minute(), now.second());
    state.update(frame_in_sync.clone());
    assert_eq!(
        state.timecode_match().label(),
        "OUT OF SYNC",
        "Status should not change due to throttling"
    );

    // Third call, forcing check to run again.
    // Status should now update to IN SYNC.
    state.last_match_check = 0;
    state.update(frame_in_sync.clone());
    assert_eq!(
        state.timecode_match().label(),
        "IN SYNC",
        "Status should update after throttle period"
    );
}

#[test]
fn test_ewma_clock_delta() {
    let mut state = LtcState::new();
    assert_eq!(state.get_ewma_clock_delta(), 0);

    // First value initializes the EWMA
    state.record_and_update_ewma_clock_delta(100);
    assert_eq!(state.get_ewma_clock_delta(), 100);

    // Second value moves it
    state.record_and_update_ewma_clock_delta(200);
    // 0.1 * 200 + 0.9 * 100 = 20 + 90 = 110
    assert_eq!(state.get_ewma_clock_delta(), 110);

    // Third value
    state.record_and_update_ewma_clock_delta(100);
    // 0.1 * 100 + 0.9 * 110 = 10 + 99 = 109
    assert_eq!(state.get_ewma_clock_delta(), 109);

    // Reset on FREE frame
    state.update(get_test_frame(FrameStatus::Free, 0, 0, 0));
    assert_eq!(state.get_ewma_clock_delta(), 0);
    assert!(state.ewma_clock_delta.is_none());
}

#[test]
fn test_get_sync_status() {
    let mut config = Config::default();
    assert_eq!(get_sync_status(0, &config).label(), "IN SYNC");
    assert_eq!(get_sync_status(8, &config).label(), "IN SYNC");
    assert_eq!(get_sync_status(-8, &config).label(), "IN SYNC");
    assert_eq!(get_sync_status(9, &config).label(), "CLOCK BEHIND");
    assert_eq!(get_sync_status(10, &config).label(), "CLOCK BEHIND");
    assert_eq!(get_sync_status(11, &config).label(), "CLOCK AHEAD");
    assert_eq!(get_sync_status(-9, &config).label(), "CLOCK BEHIND");
    assert_eq!(get_sync_status(-100, &config).label(), "CLOCK BEHIND");

    // Test TIMETURNING status takes precedence
    config.timeturner_offset =
        TimeturnerOffset { hours: 1, minutes: 0, seconds: 0, frames: 0, milliseconds: 0 };
    assert_eq!(get_sync_status(0, &config).label(), "TIMETURNING");
    assert_eq!(get_sync_status(100, &config).label(), "TIMETURNING");
}

#[test]
fn test_get_jitter_status() {
    assert_eq!(get_jitter_status(5).label(), "GOOD");
    assert_eq!(get_jitter_status(-5).label(), "GOOD");
    assert_eq!(get_jitter_status(9).label(), "GOOD");
    assert_eq!(get_jitter_status(10).label(), "AVERAGE");
    assert_eq!(get_jitter_status(39).label(), "AVERAGE");
    assert_eq!(get_jitter_status(-39).label(), "AVERAGE");
    assert_eq!(get_jitter_status(40).label(), "BAD");
    assert_eq!(get_jitter_status(-40).label(), "BAD");
}

#[test]
fn test_lock_ratio_counts() {
    let mut state = LtcState::new();
    // No updates at all: no division by zero, ratio reads zero.
    assert_eq!(state.lock_ratio(), 0);

    for _ in 0..10 {
        state.update(get_test_frame(FrameStatus::Lock, 1, 2, 3));
    }
    state.update(get_test_frame(FrameStatus::Free, 1, 2, 3));
    // 10 of 11 locked: 90.9%, reported in tenths of a percent.
    assert_eq!(state.lock_ratio(), 909);
}

#[test]
fn test_free_frame_clears_statistics() {
    let mut state = LtcState::new();
    state.record_offset(7);
    state.record_and_update_ewma_clock_delta(50);
    state.last_match_status = MatchStatus::InSync;

    state.update(get_test_frame(FrameStatus::Free, 4, 5, 6));
    assert!(state.offset_history.is_empty());
    assert!(state.ewma_clock_delta.is_none());
    assert_eq!(state.last_match_status, MatchStatus::Unknown);
    assert_eq!(state.free_count, 1);
}

#[test]
fn test_jitter_window_evicts_oldest_after_capacity() {
    let mut state = LtcState::new();
    for i in 0..21 {
        state.record_offset(i * 10);
    }
    // Capacity is 20: the 21st sample evicts the first (0), so the window
    // now starts with the second sample.
    assert_eq!(state.offset_history.len(), 20);
    assert_eq!(*state.offset_history.front().unwrap(), 10);
    assert_eq!(*state.offset_history.back().unwrap(), 200);
}

#[test]
fn test_record_jitter_measurement() {
    let mut state = LtcState::new();
    // Nothing recorded while no frame has been seen.
    state.record_jitter_measurement(1_000, 20);
    assert!(state.offset_history.is_empty());

    let mut frame = get_test_frame(FrameStatus::Lock, 1, 2, 3);
    frame.timestamp_ms = 900;
    state.update(frame);
    // Raw transit of 100 ms less the 20 ms hardware offset.
    state.record_jitter_measurement(1_000, 20);
    assert_eq!(state.offset_history.len(), 1);
    assert_eq!(*state.offset_history.back().unwrap(), 80);

    // A free-running frame stops the measurements (and clears history).
    let mut free = get_test_frame(FrameStatus::Free, 1, 2, 3);
    free.timestamp_ms = 900;
    state.update(free);
    state.record_jitter_measurement(2_000, 20);
    assert!(state.offset_history.is_empty());
}

#[test]
fn test_average_jitter_truncates_toward_zero() {
    let mut state = LtcState::new();
    assert_eq!(state.average_jitter(), 0);
    state.record_offset(3);
    state.record_offset(4);
    assert_eq!(state.average_jitter(), 3); // 7 / 2 truncated
    let mut neg = LtcState::new();
    neg.record_offset(-3);
    neg.record_offset(-4);
    assert_eq!(neg.average_jitter(), -3); // -7 / 2 truncated toward zero
}

#[test]
fn test_average_frames_rounds_at_latest_rate() {
    let mut state = LtcState::new();
    assert_eq!(state.average_frames(), 0);
    state.update(get_test_frame(FrameStatus::Lock, 1, 2, 3));
    state.record_offset(100);
    // 100 ms at 25 fps (40 ms per frame) is 2.5 frames, rounded away to 3.
    assert_eq!(state.average_frames(), 3);
    state.record_offset(-20);
    // Mean is 40 ms: exactly one frame.
    assert_eq!(state.average_frames(), 1);
}
