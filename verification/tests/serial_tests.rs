use std::sync::mpsc;
use std::sync::{Arc, Mutex};

use chrono::Utc;
use ntp_timeturner::serial_input::parse_ltc_line;
use ntp_timeturner::sync_logic::{FrameStatus, LtcState};

#[test]
fn test_process_lock_line() {
    let (tx, rx) = mpsc::channel();
    let state = Arc::new(Mutex::new(LtcState::new()));
    let line = "[LOCK] 10:20:30:00 | 25.00fps";

    // Simulate the processing logic of the serial reader thread.
    let arrival = Utc::now().timestamp_millis();
    if let Some(frame) = parse_ltc_line(line.as_bytes(), arrival) {
        {
            let mut st = state.lock().unwrap();
            st.update(frame.clone());
        }
        let _ = tx.send(frame);
    }

    let st = state.lock().unwrap();
    assert_eq!(st.lock_count, 1);
    assert_eq!(st.free_count, 0);
    let received_frame = rx.try_recv().unwrap();
    assert_eq!(received_frame.status, FrameStatus::Lock);
    assert_eq!(received_frame.status.label(), "LOCK");
    assert_eq!(received_frame.hours, 10);
}

#[test]
fn test_process_free_line() {
    let (tx, rx) = mpsc::channel();
    let state = Arc::new(Mutex::new(LtcState::new()));
    let line = "[FREE] 01:02:03:04 | 29.97fps";

    // Simulate the processing logic
    let arrival = Utc::now().timestamp_millis();
    if let Some(frame) = parse_ltc_line(line.as_bytes(), arrival) {
        {
            let mut st = state.lock().unwrap();
            st.update(frame.clone());
        }
        let _ = tx.send(frame);
    }

    let st = state.lock().unwrap();
    assert_eq!(st.lock_count, 0);
    assert_eq!(st.free_count, 1);
    let received_frame = rx.try_recv().unwrap();
    assert_eq!(received_frame.status, FrameStatus::Free);
    assert_eq!(received_frame.status.label(), "FREE");
    // 29.97 fps, held in thousandths of a frame per second.
    assert_eq!(received_frame.frame_rate_millifps, 29_970);
}

#[test]
fn test_ignore_non_matching_line() {
    let (tx, rx) = mpsc::channel();
    let state = Arc::new(Mutex::new(LtcState::new()));
    let line = "this is not a valid ltc line";

    // Simulate the processing logic
    let arrival = Utc::now().timestamp_millis();
    if let Some(frame) = parse_ltc_line(line.as_bytes(), arrival) {
        {
            let mut st = state.lock().unwrap();
            st.update(frame.clone());
        }
        let _ = tx.send(frame);
    }

    let st = state.lock().unwrap();
    assert_eq!(st.lock_count, 0);
    assert_eq!(st.free_count, 0);
    assert!(rx.try_recv().is_err());
}

#[test]
fn test_ignore_line_with_bad_parseable_data() {
    let (tx, rx) = mpsc::channel();
    let state = Arc::new(Mutex::new(LtcState::new()));
    // The timecode pattern is present, but "1.2.3.4" is no frame rate.
    let line = "[LOCK] 10:20:30:00 | 1.2.3.4fps";

    // Simulate the processing logic
    let arrival = Utc::now().timestamp_millis();
    if let Some(frame) = parse_ltc_line(line.as_bytes(), arrival) {
        {
            let mut st = state.lock().unwrap();
            st.update(frame.clone());
        }
        let _ = tx.send(frame);
    }

    let st = state.lock().unwrap();
    assert_eq!(st.lock_count, 0);
    assert_eq!(st.free_count, 0);
    assert!(rx.try_recv().is_err());
}

#[test]
fn test_parse_fields_and_semicolon_separator() {
    let frame = parse_ltc_line(b"[LOCK] 12:34:56;21 | 24fps", 77).expect("line should parse");
    assert_eq!(frame.status, FrameStatus::Lock);
    assert_eq!(frame.hours, 12);
    assert_eq!(frame.minutes, 34);
    assert_eq!(frame.seconds, 56);
    assert_eq!(frame.frames, 21);
    assert_eq!(frame.frame_rate_millifps, 24_000);
    assert_eq!(frame.timestamp_ms, 77);
}

#[test]
fn test_parse_skips_leading_noise() {
    let frame =
        parse_ltc_line(b"noise )=# [FREE] 00:01:02:03 | 23.976fps trailing", 0).expect("parses");
    assert_eq!(frame.status, FrameStatus::Free);
    assert_eq!(frame.seconds, 2);
    assert_eq!(frame.frame_rate_millifps, 23_976);
}

#[test]
fn test_parse_rejects_zero_rate() {
    assert!(parse_ltc_line(b"[LOCK] 10:20:30:00 | 0.000fps", 0).is_none());
}

#[test]
fn test_parse_rejects_missing_parts() {
    // No gap after the tag.
    assert!(parse_ltc_line(b"[LOCK]10:20:30:00 | 25fps", 0).is_none());
    // Missing the rate unit.
    assert!(parse_ltc_line(b"[LOCK] 10:20:30:00 | 25.00", 0).is_none());
    // One-digit field.
    assert!(parse_ltc_line(b"[LOCK] 1:20:30:00 | 25.00fps", 0).is_none());
    // A lone dot is no rate.
    assert!(parse_ltc_line(b"[LOCK] 10:20:30:00 | .fps", 0).is_none());
    // Empty line.
    assert!(parse_ltc_line(b"", 0).is_none());
}

#[test]
fn test_parse_fractional_rates() {
    // A trailing dot reads as a whole number.
    let f = parse_ltc_line(b"[LOCK] 00:00:00:00 | 25.fps", 0).expect("parses");
    assert_eq!(f.frame_rate_millifps, 25_000);
    // A bare fraction reads as under one frame per second.
    let g = parse_ltc_line(b"[LOCK] 00:00:00:00 | .5fps", 0).expect("parses");
    assert_eq!(g.frame_rate_millifps, 500);
    // Only the first three fraction digits carry.
    let h = parse_ltc_line(b"[LOCK] 00:00:00:00 | 29.97001fps", 0).expect("parses");
    assert_eq!(h.frame_rate_millifps, 29_970);
}
