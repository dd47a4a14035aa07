use ntp_timeturner::controller::{controller_tick, ControllerState, DEBOUNCE_MS};
use ntp_timeturner::sync_logic::SyncStatus;

#[test]
fn test_debounce_oscillation_never_fires() {
    // The status flips back to agreement every two seconds: no tick may
    // ever ask for a correction.
    let mut state = ControllerState::Stable;
    let mut now: i64 = 0;
    for _ in 0..50 {
        let (s1, fired1) = controller_tick(state, SyncStatus::ClockAhead, now);
        assert!(!fired1);
        now += 2000;
        let (s2, fired2) = controller_tick(s1, SyncStatus::InSync, now);
        assert!(!fired2);
        assert_eq!(s2, ControllerState::Stable);
        now += 2000;
        state = s2;
    }
}

#[test]
fn test_debounce_sustained_disagreement_fires_once_and_resets() {
    // Out of sync continuously, ticking every second: exactly one
    // correction fires once five seconds have elapsed, and the timer
    // restarts from Stable.
    let mut state = ControllerState::Stable;
    let mut fired_count = 0;
    let mut fired_at: i64 = -1;
    for tick in 0..=10 {
        let now = tick * 1000;
        let (next, fired) = controller_tick(state, SyncStatus::ClockBehind, now);
        if fired {
            fired_count += 1;
            fired_at = now;
            assert_eq!(next, ControllerState::Stable);
        }
        state = next;
    }
    // Timer started at t=0 on the first tick; t=5000 is the first tick
    // with five full seconds elapsed; the timer then restarts at t=6000,
    // so no second correction fires by t=10000.
    assert_eq!(fired_count, 1);
    assert_eq!(fired_at, DEBOUNCE_MS);
}

#[test]
fn test_debounce_two_corrections_need_two_full_windows() {
    let mut state = ControllerState::Stable;
    let mut firing_instants = Vec::new();
    for tick in 0..=13 {
        let now = tick * 1000;
        let (next, fired) = controller_tick(state, SyncStatus::ClockAhead, now);
        if fired {
            firing_instants.push(now);
        }
        state = next;
    }
    // Entry at 0, fire at 5000; re-entry at 6000, fire at 11000.
    assert_eq!(firing_instants, vec![5000, 11000]);
}

#[test]
fn test_settled_status_cancels_pending_timer() {
    let (pending, _) = controller_tick(ControllerState::Stable, SyncStatus::ClockBehind, 100);
    assert_eq!(pending, ControllerState::PendingCorrection { since_ms: 100 });

    // Agreement cancels the timer even a moment before it would fire.
    let (cancelled, fired) = controller_tick(pending, SyncStatus::InSync, 100 + DEBOUNCE_MS);
    assert!(!fired);
    assert_eq!(cancelled, ControllerState::Stable);

    // An operator offset counts as settled too.
    let (pending2, _) = controller_tick(ControllerState::Stable, SyncStatus::ClockBehind, 200);
    let (cancelled2, fired2) =
        controller_tick(pending2, SyncStatus::TimeTurning, 200 + 2 * DEBOUNCE_MS);
    assert!(!fired2);
    assert_eq!(cancelled2, ControllerState::Stable);
}

#[test]
fn test_debounce_boundary_is_inclusive() {
    let pending = ControllerState::PendingCorrection { since_ms: 1_000 };
    let (_, early) = controller_tick(pending, SyncStatus::ClockAhead, 1_000 + DEBOUNCE_MS - 1);
    assert!(!early);
    let (after, at) = controller_tick(pending, SyncStatus::ClockAhead, 1_000 + DEBOUNCE_MS);
    assert!(at);
    assert_eq!(after, ControllerState::Stable);
}
