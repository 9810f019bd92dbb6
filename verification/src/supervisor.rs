//! The reconnection supervisor.
//!
//! A pure state machine over the session lifecycle; the caller owns
//! the clock, the timers and the session, feeds observations in and
//! performs the returned actions.  States: `Connecting` (replaying
//! the subscription registry against a fresh session), `Subscribed`
//! (replay confirmed, no event yet), `Streaming` (events flowing),
//! `Reconnecting` (waiting out a backoff delay).
//!
//! Transitions: a successful replay confirms `Subscribed` and resets
//! the attempt counter; the first event enters `Streaming`; an
//! explicit disconnect or a liveness timeout (no event within the
//! configured window) enters `Reconnecting` and starts a backoff; an
//! elapsed backoff re-enters `Connecting` with an order to replay the
//! registry.  A failed replay stays in `Connecting` and backs off
//! again: reconnection retries forever and is never fatal.  Backoff
//! is linear with a cap: `base * min(attempts, cap)`, saturating at
//! the top of `u64`.

use vstd::prelude::*;

verus! {

/// Lifecycle state of the stream session.
#[derive(Clone, Copy, PartialEq, Eq, Structural, Debug)]
pub enum SupervisorState {
    Connecting,
    Subscribed,
    Streaming,
    Reconnecting,
}

/// What the caller must do after feeding the supervisor an
/// observation.
#[derive(Clone, Copy, PartialEq, Eq, Structural, Debug)]
pub enum SupervisorAction {
    /// Nothing to do.
    Idle,
    /// Wait out this backoff delay, then report it elapsed.
    BeginBackoff { delay_ms: u64 },
    /// Tear down the session, establish a fresh one, and replay the
    /// full subscription registry against it.
    Replay,
}

/// The supervisor: lifecycle state, backoff accounting, and the
/// liveness clock.
#[derive(Clone, Copy, PartialEq, Eq, Structural, Debug)]
pub struct ReconnectionSupervisor {
    pub state: SupervisorState,
    pub attempts: u64,
    pub base_delay_ms: u64,
    pub attempt_cap: u64,
    pub liveness_window_ms: u64,
    pub last_event_ms: u64,
}

/// Increments, saturating at the top of `u64`.
pub open spec fn sat_inc(x: int) -> int {
    if x + 1 > u64::MAX {
        u64::MAX as int
    } else {
        x + 1
    }
}

/// Linear backoff with a cap: `base * min(attempts, cap)`,
/// saturating at the top of `u64`.
pub open spec fn backoff_delay(base: int, attempts: int, cap: int) -> int {
    let d = base * vstd::math::min(attempts, cap);
    if d > u64::MAX {
        u64::MAX as int
    } else {
        d
    }
}

/// No event has been observed within the liveness window.
pub open spec fn timed_out(s: ReconnectionSupervisor, now: int) -> bool {
    now >= s.last_event_ms && now - s.last_event_ms >= s.liveness_window_ms
}

/// `s` with a new state, attempt count and last-event time.
pub open spec fn sup_with(
    s: ReconnectionSupervisor,
    state: SupervisorState,
    attempts: int,
    last_event: int,
) -> ReconnectionSupervisor {
    (ReconnectionSupervisor {
        state,
        attempts: attempts as u64,
        base_delay_ms: s.base_delay_ms,
        attempt_cap: s.attempt_cap,
        liveness_window_ms: s.liveness_window_ms,
        last_event_ms: last_event as u64,
    })
}

/// The backoff the supervisor starts after one more failed attempt.
pub open spec fn next_backoff(s: ReconnectionSupervisor) -> SupervisorAction {
    (SupervisorAction::BeginBackoff {
        delay_ms: backoff_delay(
            s.base_delay_ms as int,
            sat_inc(s.attempts as int),
            s.attempt_cap as int,
        ) as u64,
    })
}

/// Transition on a replay result, meaningful in `Connecting`.
pub open spec fn replay_step(s: ReconnectionSupervisor, ok: bool) -> (
    ReconnectionSupervisor,
    SupervisorAction,
) {
    if s.state == SupervisorState::Connecting {
        if ok {
            (
                sup_with(s, SupervisorState::Subscribed, 0, s.last_event_ms as int),
                SupervisorAction::Idle,
            )
        } else {
            (
                sup_with(
                    s,
                    SupervisorState::Connecting,
                    sat_inc(s.attempts as int),
                    s.last_event_ms as int,
                ),
                next_backoff(s),
            )
        }
    } else {
        (s, SupervisorAction::Idle)
    }
}

/// Transition on an observed event: confirms `Streaming` and feeds
/// the liveness clock.
pub open spec fn event_step(s: ReconnectionSupervisor, now: int) -> (
    ReconnectionSupervisor,
    SupervisorAction,
) {
    if s.state == SupervisorState::Subscribed {
        (sup_with(s, SupervisorState::Streaming, s.attempts as int, now), SupervisorAction::Idle)
    } else if s.state == SupervisorState::Streaming {
        (sup_with(s, SupervisorState::Streaming, s.attempts as int, now), SupervisorAction::Idle)
    } else {
        (s, SupervisorAction::Idle)
    }
}

/// Transition on an explicit disconnect signal.
pub open spec fn disconnect_step(s: ReconnectionSupervisor) -> (
    ReconnectionSupervisor,
    SupervisorAction,
) {
    if s.state == SupervisorState::Streaming {
        (
            sup_with(
                s,
                SupervisorState::Reconnecting,
                sat_inc(s.attempts as int),
                s.last_event_ms as int,
            ),
            next_backoff(s),
        )
    } else {
        (s, SupervisorAction::Idle)
    }
}

/// Transition on a liveness check at time `now`.
pub open spec fn liveness_step(s: ReconnectionSupervisor, now: int) -> (
    ReconnectionSupervisor,
    SupervisorAction,
) {
    if s.state == SupervisorState::Streaming && timed_out(s, now) {
        (
            sup_with(
                s,
                SupervisorState::Reconnecting,
                sat_inc(s.attempts as int),
                s.last_event_ms as int,
            ),
            next_backoff(s),
        )
    } else {
        (s, SupervisorAction::Idle)
    }
}

/// Transition on an elapsed backoff delay.
pub open spec fn backoff_step(s: ReconnectionSupervisor) -> (
    ReconnectionSupervisor,
    SupervisorAction,
) {
    if s.state == SupervisorState::Reconnecting {
        (
            sup_with(s, SupervisorState::Connecting, s.attempts as int, s.last_event_ms as int),
            SupervisorAction::Replay,
        )
    } else if s.state == SupervisorState::Connecting {
        (s, SupervisorAction::Replay)
    } else {
        (s, SupervisorAction::Idle)
    }
}

/// LAW: a liveness timeout with no incoming events for the configured
/// window moves a streaming supervisor to `Reconnecting` and leads to
/// exactly one full replay of the subscription registry: the timeout
/// itself orders only a backoff, and the elapsed backoff orders the
/// one `Replay`.
pub proof fn lemma_timeout_single_replay(s: ReconnectionSupervisor, now: int)
    requires
        s.state == SupervisorState::Streaming,
        timed_out(s, now),
    ensures
        liveness_step(s, now).0.state == SupervisorState::Reconnecting,
        liveness_step(s, now).1 matches SupervisorAction::BeginBackoff { delay_ms: _d },
        !(liveness_step(s, now).1 is Replay),
        backoff_step(liveness_step(s, now).0).0.state == SupervisorState::Connecting,
        backoff_step(liveness_step(s, now).0).1 == SupervisorAction::Replay,
{
}

impl ReconnectionSupervisor {
    /// A supervisor about to make its first connection.
    pub fn new(base_delay_ms: u64, attempt_cap: u64, liveness_window_ms: u64, now_ms: u64) -> (r:
        Self)
        ensures
            r.state == SupervisorState::Connecting,
            r.attempts == 0,
            r.base_delay_ms == base_delay_ms,
            r.attempt_cap == attempt_cap,
            r.liveness_window_ms == liveness_window_ms,
            r.last_event_ms == now_ms,
    {
        ReconnectionSupervisor {
            state: SupervisorState::Connecting,
            attempts: 0,
            base_delay_ms,
            attempt_cap,
            liveness_window_ms,
            last_event_ms: now_ms,
        }
    }

    /// The backoff delay after one more failed attempt.
    fn compute_next_backoff(&self) -> (a: SupervisorAction)
        ensures
            a == next_backoff(*self),
    {
        let attempts: u64 = if self.attempts == u64::MAX {
            u64::MAX
        } else {
            self.attempts + 1
        };
        let m: u64 = if attempts < self.attempt_cap {
            attempts
        } else {
            self.attempt_cap
        };
        proof {
            assert((self.base_delay_ms as int) * (m as int) <= (u64::MAX as int) * (u64::MAX as int))
                by (nonlinear_arith)
                requires
                    0 <= self.base_delay_ms as int <= u64::MAX as int,
                    0 <= m as int <= u64::MAX as int,
            ;
        }
        let d: u128 = (self.base_delay_ms as u128) * (m as u128);
        let delay_ms: u64 = if d > u64::MAX as u128 {
            u64::MAX
        } else {
            d as u64
        };
        SupervisorAction::BeginBackoff { delay_ms }
    }

    /// Reports the outcome of a registry replay; meaningful while
    /// `Connecting`.  Success confirms `Subscribed` and resets the
    /// attempt counter; failure stays in `Connecting` and backs off.
    pub fn on_replay_result(&mut self, ok: bool) -> (a: SupervisorAction)
        ensures
            (*final(self), a) == replay_step(*old(self), ok),
    {
        if matches!(self.state, SupervisorState::Connecting) {
            if ok {
                self.state = SupervisorState::Subscribed;
                self.attempts = 0;
                SupervisorAction::Idle
            } else {
                let a = self.compute_next_backoff();
                self.attempts = if self.attempts == u64::MAX {
                    u64::MAX
                } else {
                    self.attempts + 1
                };
                self.state = SupervisorState::Connecting;
                a
            }
        } else {
            SupervisorAction::Idle
        }
    }

    /// Reports one observed stream event at time `now_ms`: the first
    /// event confirms `Streaming`, and every event feeds the liveness
    /// clock.
    pub fn on_event(&mut self, now_ms: u64) -> (a: SupervisorAction)
        ensures
            (*final(self), a) == event_step(*old(self), now_ms as int),
    {
        match self.state {
            SupervisorState::Subscribed => {
                self.state = SupervisorState::Streaming;
                self.last_event_ms = now_ms;
            },
            SupervisorState::Streaming => {
                self.last_event_ms = now_ms;
            },
            _ => {},
        }
        SupervisorAction::Idle
    }

    /// Reports an explicit disconnect signal: a streaming session
    /// moves to `Reconnecting` and backs off.
    pub fn on_disconnect(&mut self) -> (a: SupervisorAction)
        ensures
            (*final(self), a) == disconnect_step(*old(self)),
    {
        if matches!(self.state, SupervisorState::Streaming) {
            let a = self.compute_next_backoff();
            self.attempts = if self.attempts == u64::MAX {
                u64::MAX
            } else {
                self.attempts + 1
            };
            self.state = SupervisorState::Reconnecting;
            a
        } else {
            SupervisorAction::Idle
        }
    }

    /// Checks liveness at time `now_ms`: a streaming session that has
    /// seen no event for the configured window moves to
    /// `Reconnecting` and backs off.
    pub fn check_liveness(&mut self, now_ms: u64) -> (a: SupervisorAction)
        ensures
            (*final(self), a) == liveness_step(*old(self), now_ms as int),
    {
        if matches!(self.state, SupervisorState::Streaming) && now_ms >= self.last_event_ms
            && now_ms - self.last_event_ms >= self.liveness_window_ms {
            let a = self.compute_next_backoff();
            self.attempts = if self.attempts == u64::MAX {
                u64::MAX
            } else {
                self.attempts + 1
            };
            self.state = SupervisorState::Reconnecting;
            a
        } else {
            SupervisorAction::Idle
        }
    }

    /// Reports that the ordered backoff delay has elapsed: the
    /// supervisor re-enters `Connecting` and orders one full replay
    /// of the subscription registry.
    pub fn on_backoff_elapsed(&mut self) -> (a: SupervisorAction)
        ensures
            (*final(self), a) == backoff_step(*old(self)),
    {
        match self.state {
            SupervisorState::Reconnecting => {
                self.state = SupervisorState::Connecting;
                SupervisorAction::Replay
            },
            SupervisorState::Connecting => SupervisorAction::Replay,
            _ => SupervisorAction::Idle,
        }
    }
}

} // verus!
