//! The debounced auto-correction controller: a two-state machine driven by
//! a periodic tick. A disagreeing sync status must persist for the full
//! debounce interval before a correction is issued, so single noisy samples
//! never cause a disruptive wall-clock jump; an agreeing status cancels any
//! pending timer at once.

use vstd::prelude::*;

verus! {

use crate::sync_logic::SyncStatus;

/// Milliseconds a disagreeing status must persist before a correction.
pub const DEBOUNCE_MS: i64 = 5000;

/// The controller is either settled, or counting down since the instant the
/// status first started disagreeing.
#[derive(Clone, Copy, Debug, PartialEq, Eq, Structural)]
pub enum ControllerState {
    Stable,
    PendingCorrection { since_ms: i64 },
}

/// A status that calls for no correction: the clocks agree, or an operator
/// offset declares the disagreement intentional.
pub open spec fn spec_status_settled(status: SyncStatus) -> bool {
    status == SyncStatus::InSync || status == SyncStatus::TimeTurning
}

/// Whether a status calls for no correction.
pub fn status_settled(status: SyncStatus) -> (r: bool)
    ensures
        r == spec_status_settled(status),
{
    status == SyncStatus::InSync || status == SyncStatus::TimeTurning
}

/// One control tick: the next state and whether to issue a correction now.
///
/// A settled status always returns the controller to `Stable`. A
/// disagreeing status starts the timer when none runs, and fires — exactly
/// once, returning to `Stable` — when the disagreement has lasted the full
/// debounce interval.
pub open spec fn spec_tick(state: ControllerState, status: SyncStatus, now_ms: i64) -> (
    ControllerState,
    bool,
) {
    if spec_status_settled(status) {
        (ControllerState::Stable, false)
    } else {
        match state {
            ControllerState::Stable => ((ControllerState::PendingCorrection { since_ms: now_ms }),
            false),
            ControllerState::PendingCorrection { since_ms } => {
                if now_ms as int - since_ms as int >= DEBOUNCE_MS as int {
                    (ControllerState::Stable, true)
                } else {
                    (state, false)
                }
            },
        }
    }
}

/// Advance the controller by one tick at instant `now_ms` (epoch
/// milliseconds); the boolean asks the caller to issue a full correction.
pub fn controller_tick(state: ControllerState, status: SyncStatus, now_ms: i64) -> (r: (
    ControllerState,
    bool,
))
    ensures
        r == spec_tick(state, status, now_ms),
{
    if status_settled(status) {
        return (ControllerState::Stable, false);
    }
    match state {
        ControllerState::Stable => (ControllerState::PendingCorrection { since_ms: now_ms }, false),
        ControllerState::PendingCorrection { since_ms } => {
            if now_ms as i128 - since_ms as i128 >= DEBOUNCE_MS as i128 {
                (ControllerState::Stable, true)
            } else {
                (state, false)
            }
        },
    }
}

/// The controller state after running a whole trace of ticks — pairs of
/// (status read, instant) — starting from `Stable` at process start.
pub open spec fn run_trace(trace: Seq<(SyncStatus, i64)>) -> ControllerState
    decreases trace.len(),
{
    if trace.len() == 0 {
        ControllerState::Stable
    } else {
        spec_tick(run_trace(trace.drop_last()), trace.last().0, trace.last().1).0
    }
}

/// Whether the tick at position `k` of the trace issues a correction.
pub open spec fn fires_at(trace: Seq<(SyncStatus, i64)>, k: int) -> bool
    recommends
        0 <= k < trace.len(),
{
    spec_tick(run_trace(trace.take(k)), trace[k].0, trace[k].1).1
}

/// Position `j` is where the currently-running debounce timer was started:
/// the controller was settled just before it, the status has disagreed ever
/// since, and the timer has carried `trace[j]`'s instant ever since.
pub open spec fn pending_entry(trace: Seq<(SyncStatus, i64)>, j: int, t: i64) -> bool {
    &&& 0 <= j < trace.len()
    &&& run_trace(trace.take(j)) == ControllerState::Stable
    &&& trace[j].1 == t
    &&& (forall|i: int| j <= i < trace.len() ==> !spec_status_settled(#[trigger] trace[i].0))
    &&& (forall|i: int|
        j < i <= trace.len() ==> run_trace(#[trigger] trace.take(i)) == (
        ControllerState::PendingCorrection { since_ms: t }))
}

/// A running debounce timer always has a well-defined start: the tick where
/// the controller left `Stable`, from which the status has disagreed
/// without interruption.
pub proof fn lemma_pending_has_entry(trace: Seq<(SyncStatus, i64)>, t: i64) -> (j: int)
    requires
        run_trace(trace) == (ControllerState::PendingCorrection { since_ms: t }),
    ensures
        pending_entry(trace, j, t),
    decreases trace.len(),
{
    let n = trace.len() as int;
    let prev = trace.drop_last();
    let status = trace.last().0;
    let now = trace.last().1;
    assert(!spec_status_settled(status));
    assert(prev =~= trace.take(n - 1));
    if run_trace(prev) == (ControllerState::PendingCorrection { since_ms: t }) {
        let j = lemma_pending_has_entry(prev, t);
        assert forall|i: int| j < i <= n implies run_trace(#[trigger] trace.take(i)) == (
        ControllerState::PendingCorrection { since_ms: t }) by {
            if i < n {
                assert(trace.take(i) =~= prev.take(i));
            } else {
                assert(trace.take(i) =~= trace);
            }
        }
        assert forall|i: int| j <= i < n implies !spec_status_settled(#[trigger] trace[i].0) by {
            if i < n - 1 {
                assert(trace[i] == prev[i]);
            }
        }
        assert(trace.take(j) =~= prev.take(j));
        j
    } else {
        assert(run_trace(prev) == ControllerState::Stable);
        assert(t == now);
        let j = n - 1;
        assert forall|i: int| j < i <= n implies run_trace(#[trigger] trace.take(i)) == (
        ControllerState::PendingCorrection { since_ms: t }) by {
            assert(trace.take(i) =~= trace);
        }
        j
    }
}

/// A correction is issued only after sustained disagreement: whenever the
/// tick at `k` fires, there is a tick at some `j` at least the debounce
/// interval earlier, from which the status has read out-of-sync at every
/// tick up to and including `k`. A status that returns to agreement within
/// each debounce interval therefore never triggers a correction, however
/// often it oscillates.
pub proof fn lemma_correction_needs_sustained_disagreement(
    trace: Seq<(SyncStatus, i64)>,
    k: int,
) -> (j: int)
    requires
        0 <= k < trace.len(),
        fires_at(trace, k),
    ensures
        0 <= j <= k,
        trace[j].1 as int + DEBOUNCE_MS as int <= trace[k].1 as int,
        forall|i: int| j <= i <= k ==> !spec_status_settled(#[trigger] trace[i].0),
{
    let pre = trace.take(k);
    let state = run_trace(pre);
    assert(!spec_status_settled(trace[k].0));
    let t = match state {
        ControllerState::PendingCorrection { since_ms } => since_ms,
        ControllerState::Stable => arbitrary(),
    };
    assert(state == (ControllerState::PendingCorrection { since_ms: t }));
    let j = lemma_pending_has_entry(pre, t);
    assert(pre[j] == trace[j]);
    assert forall|i: int| j <= i <= k implies !spec_status_settled(#[trigger] trace[i].0) by {
        if i < k {
            assert(trace[i] == pre[i]);
        }
    }
    j
}

/// Sustained disagreement does fire, and firing resets the timer: once the
/// debounce interval has elapsed since the timer started, a tick whose
/// status still disagrees issues the correction and returns the controller
/// to `Stable`, so a fresh full interval is needed before the next one.
pub proof fn lemma_sustained_disagreement_fires(
    state: ControllerState,
    status: SyncStatus,
    now_ms: i64,
    t: i64,
)
    requires
        state == (ControllerState::PendingCorrection { since_ms: t }),
        !spec_status_settled(status),
        now_ms as int - t as int >= DEBOUNCE_MS as int,
    ensures
        spec_tick(state, status, now_ms).1,
        spec_tick(state, status, now_ms).0 == ControllerState::Stable,
{
}

/// Two corrections are separated by a full debounce interval of renewed
/// disagreement: after a correction at `k`, the next one at `k2` has its
/// own timer start strictly after `k`, at least the debounce interval
/// before `k2`.
pub proof fn lemma_corrections_are_separated(
    trace: Seq<(SyncStatus, i64)>,
    k: int,
    k2: int,
) -> (j: int)
    requires
        0 <= k < k2 < trace.len(),
        fires_at(trace, k),
        fires_at(trace, k2),
    ensures
        k < j <= k2,
        trace[j].1 as int + DEBOUNCE_MS as int <= trace[k2].1 as int,
        forall|i: int| j <= i <= k2 ==> !spec_status_settled(#[trigger] trace[i].0),
{
    let pre = trace.take(k2);
    let state = run_trace(pre);
    assert(!spec_status_settled(trace[k2].0));
    let t = match state {
        ControllerState::PendingCorrection { since_ms } => since_ms,
        ControllerState::Stable => arbitrary(),
    };
    assert(state == (ControllerState::PendingCorrection { since_ms: t }));
    let j = lemma_pending_has_entry(pre, t);
    assert(pre[j] == trace[j]);
    assert forall|i: int| j <= i <= k2 implies !spec_status_settled(#[trigger] trace[i].0) by {
        if i < k2 {
            assert(trace[i] == pre[i]);
        }
    }
    if j <= k {
        assert(run_trace(pre.take(k + 1)) == (ControllerState::PendingCorrection { since_ms: t }));
        assert(pre.take(k + 1) =~= trace.take(k + 1));
        assert(trace.take(k + 1).drop_last() =~= trace.take(k));
        assert(run_trace(trace.take(k + 1)) == spec_tick(
            run_trace(trace.take(k)),
            trace[k].0,
            trace[k].1,
        ).0);
        assert(run_trace(trace.take(k + 1)) == ControllerState::Stable);
        assert(false);
    }
    j
}

} // verus!
