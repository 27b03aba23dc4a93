//! The health of one engine: a circuit breaker that opens on a transport
//! timeout, and a short cooldown that is armed after every completed request.
//! Times are milliseconds since the Unix epoch.

use vstd::prelude::*;

verus! {

/// How long an engine stays out after a transport timeout: sixty minutes.
pub const PENALTY_MILLIS: i64 = 3_600_000;

/// How long an engine rests after a completed request: two seconds.
pub const COOLDOWN_MILLIS: i64 = 2_000;

/// `now + span`, held at `i64::MAX` where the sum would pass it.
pub open spec fn deadline(now: i64, span: i64) -> i64 {
    if now + span <= i64::MAX {
        (now + span) as i64
    } else {
        i64::MAX
    }
}

/// Whether the breaker is closed.
#[derive(Debug, Clone, Copy, PartialEq, Eq, Structural)]
pub enum EngineState {
    Healthy,
    TimedOut { available_at: i64 },
}

/// The breaker and the cooldown of one engine instance.
#[derive(Debug, Clone, Copy, PartialEq, Eq, Structural)]
pub struct Breaker {
    pub state: EngineState,
    pub cooldown_until: Option<i64>,
}

impl Breaker {
    /// Healthy and with no cooldown armed: a search may start.
    pub open spec fn ready(self) -> bool {
        self.state is Healthy && self.cooldown_until is None
    }

    /// `self` with both timers held against `now`: a penalty that has run out
    /// closes the breaker, a cooldown that has run out is cleared.
    pub open spec fn reconciled(self, now: i64) -> Breaker {
        Breaker {
            state: match self.state {
                EngineState::TimedOut { available_at } if now >= available_at => EngineState::Healthy,
                other => other,
            },
            cooldown_until: match self.cooldown_until {
                Some(until) if now >= until => None,
                other => other,
            },
        }
    }

    /// Whether the engine is available at `now`.
    pub open spec fn available_at(self, now: i64) -> bool {
        self.reconciled(now).ready()
    }

    /// `self` after a transport timeout seen at `now`.
    pub open spec fn after_timeout(self, now: i64) -> Breaker {
        Breaker {
            state: EngineState::TimedOut { available_at: deadline(now, PENALTY_MILLIS) },
            cooldown_until: self.cooldown_until,
        }
    }

    /// `self` after a request that completed at `now` without timing out.
    pub open spec fn after_completion(self, now: i64) -> Breaker {
        Breaker { state: self.state, cooldown_until: Some(deadline(now, COOLDOWN_MILLIS)) }
    }

    /// A healthy breaker with no cooldown.
    pub fn new() -> (breaker: Breaker)
        ensures
            breaker == (Breaker { state: EngineState::Healthy, cooldown_until: None }),
            breaker.ready(),
    {
        Breaker { state: EngineState::Healthy, cooldown_until: None }
    }

    /// Holds both timers against `now`, then reports whether a search may
    /// start.
    pub fn is_available_at(&mut self, now: i64) -> (available: bool)
        ensures
            *final(self) == old(self).reconciled(now),
            available == old(self).available_at(now),
            available == final(self).ready(),
    {
        if let EngineState::TimedOut { available_at } = self.state {
            if now >= available_at {
                self.state = EngineState::Healthy;
            }
        }
        if let Some(until) = self.cooldown_until {
            if now >= until {
                self.cooldown_until = None;
            }
        }
        matches!(self.state, EngineState::Healthy) && self.cooldown_until.is_none()
    }

    /// Opens the breaker for the penalty window that starts at `now`. The
    /// cooldown is left as it is.
    pub fn record_timeout(&mut self, now: i64)
        ensures
            *final(self) == old(self).after_timeout(now),
    {
        self.state = EngineState::TimedOut { available_at: add_span(now, PENALTY_MILLIS) };
    }

    /// Arms the cooldown for the window that starts at `now`. The breaker is
    /// left as it is.
    pub fn record_completion(&mut self, now: i64)
        ensures
            *final(self) == old(self).after_completion(now),
    {
        self.cooldown_until = Some(add_span(now, COOLDOWN_MILLIS));
    }
}

/// `now + span` without overflow.
fn add_span(now: i64, span: i64) -> (end: i64)
    requires
        span >= 0,
    ensures
        end == deadline(now, span),
{
    if now <= i64::MAX - span {
        now + span
    } else {
        i64::MAX
    }
}

/// After a timeout at `now`, the engine is unavailable at every moment before
/// `now + PENALTY_MILLIS`, the moment of the timeout included; from that
/// moment on it is available as soon as no cooldown is running.
pub proof fn lemma_timeout_closes_until_penalty_ends(breaker: Breaker, now: i64, later: i64)
    requires
        now + PENALTY_MILLIS <= i64::MAX,
    ensures
        !breaker.after_timeout(now).available_at(now),
        later < now + PENALTY_MILLIS ==> !breaker.after_timeout(now).available_at(later),
        later >= now + PENALTY_MILLIS ==> (breaker.after_timeout(now).available_at(later) <==> (
        breaker.cooldown_until matches Some(until) ==> later >= until)),
        breaker.after_timeout(now).state == (EngineState::TimedOut {
            available_at: (now + PENALTY_MILLIS) as i64,
        }),
{
}

/// While a cooldown is running the engine is unavailable, whatever its health;
/// a healthy engine is available again once the cooldown has run out.
pub proof fn lemma_cooldown_blocks_until_it_ends(breaker: Breaker, now: i64, later: i64)
    requires
        now + COOLDOWN_MILLIS <= i64::MAX,
    ensures
        later < now + COOLDOWN_MILLIS ==> !breaker.after_completion(now).available_at(later),
        later >= now + COOLDOWN_MILLIS && breaker.state is Healthy ==> breaker.after_completion(
            now,
        ).available_at(later),
{
}

/// Asking for availability in between does not change a later answer: with
/// time running forward, what the engine answers at `later` is the same whether
/// or not it was asked at `earlier`. In particular, asking twice at the same
/// moment gives the same answer twice.
pub proof fn lemma_asking_changes_nothing(breaker: Breaker, earlier: i64, later: i64)
    requires
        earlier <= later,
    ensures
        breaker.reconciled(earlier).reconciled(later) == breaker.reconciled(later),
        breaker.reconciled(earlier).available_at(later) == breaker.available_at(later),
{
}

} // verus!
