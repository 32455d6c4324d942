//! Health checks: statuses, checks run by the caller's closures, and the
//! overall verdict with liveness, readiness and startup flags.
use vstd::prelude::*;
use crate::status::StatusCode;
use crate::text::owned;
use crate::clock::clock_nanos;

verus! {

/// The outcome of a check, or of all of them.
#[derive(Debug, Clone, Copy, PartialEq, Eq, Structural)]
pub enum HealthStatus {
    Healthy,
    Unhealthy,
    Degraded,
}

impl HealthStatus {
    pub open spec fn name(self) -> Seq<char> {
        match self {
            HealthStatus::Healthy => "healthy"@,
            HealthStatus::Unhealthy => "unhealthy"@,
            HealthStatus::Degraded => "degraded"@,
        }
    }

    pub fn as_str(&self) -> (r: &'static str)
        ensures
            r@ == self.name(),
    {
        match self {
            HealthStatus::Healthy => "healthy",
            HealthStatus::Unhealthy => "unhealthy",
            HealthStatus::Degraded => "degraded",
        }
    }

    /// 503 when unhealthy, else 200: a degraded service still serves.
    pub fn status_code(&self) -> (r: StatusCode)
        ensures
            r == (match self {
                HealthStatus::Unhealthy => StatusCode(503),
                _ => StatusCode(200),
            }),
    {
        match self {
            HealthStatus::Unhealthy => StatusCode(503),
            _ => StatusCode(200),
        }
    }
}

/// The result of one check.
#[derive(Debug, Clone)]
pub struct HealthCheckResult {
    pub name: String,
    pub status: HealthStatus,
    pub message: Option<String>,
    /// How long the check took, in nanoseconds.
    pub duration_ns: u64,
}

/// A named check; a critical one that fails makes the service unhealthy.
pub struct HealthCheck<F> {
    pub name: String,
    pub check: F,
    pub critical: bool,
}

impl<F: Fn() -> HealthCheckResult> HealthCheck<F> {
    /// A critical check.
    pub fn new(name: &str, check: F) -> (r: HealthCheck<F>)
        ensures
            r.name@ == name@,
            r.check == check,
            r.critical,
    {
        HealthCheck { name: owned(name), check, critical: true }
    }

    /// The same check, not critical.
    pub fn non_critical(self) -> (r: HealthCheck<F>)
        ensures
            r.name == self.name,
            r.check == self.check,
            !r.critical,
    {
        HealthCheck { critical: false, ..self }
    }

    /// Runs the check and records how long it took by the clock.
    pub fn run(&self) -> (r: HealthCheckResult)
        requires
            self.check.requires(()),
        ensures
            exists|res: HealthCheckResult| self.check.ensures((), res) && r.name == res.name && r.status == res.status
                && r.message == res.message,
    {
        let start = clock_nanos();
        let mut result = (self.check)();
        let end = clock_nanos();
        result.duration_ns = end.wrapping_sub(start);
        result
    }
}

/// The overall status after one more check: a failed critical check makes
/// it unhealthy; otherwise a degraded check turns healthy into degraded.
pub open spec fn fold_status(overall: HealthStatus, critical: bool, status: HealthStatus) -> HealthStatus {
    if critical && status == HealthStatus::Unhealthy {
        HealthStatus::Unhealthy
    } else if status == HealthStatus::Degraded && overall == HealthStatus::Healthy {
        HealthStatus::Degraded
    } else {
        overall
    }
}

/// The overall status of check outcomes `(critical, status)`, in order.
pub open spec fn overall(outcomes: Seq<(bool, HealthStatus)>) -> HealthStatus
    decreases outcomes.len(),
{
    if outcomes.len() == 0 {
        HealthStatus::Healthy
    } else {
        fold_status(overall(outcomes.drop_last()), outcomes.last().0, outcomes.last().1)
    }
}

/// The overall status of check outcomes.
pub fn overall_status(outcomes: &[(bool, HealthStatus)]) -> (r: HealthStatus)
    ensures
        r == overall(outcomes@),
{
    let mut s = HealthStatus::Healthy;
    let mut i: usize = 0;
    while i < outcomes.len()
        invariant
            i <= outcomes@.len(),
            s == overall(outcomes@.take(i as int)),
        decreases outcomes@.len() - i,
    {
        assert(outcomes@.take(i + 1).drop_last() =~= outcomes@.take(i as int));
        let (critical, status) = outcomes[i];
        if critical && status == HealthStatus::Unhealthy {
            s = HealthStatus::Unhealthy;
        } else if status == HealthStatus::Degraded && s == HealthStatus::Healthy {
            s = HealthStatus::Degraded;
        }
        i += 1;
    }
    assert(outcomes@.take(outcomes@.len() as int) =~= outcomes@);
    s
}

/// The checks of a service and its readiness and startup flags.
pub struct Health<F> {
    pub checks: Vec<HealthCheck<F>>,
    pub ready: bool,
    pub started: bool,
}

impl<F: Fn() -> HealthCheckResult> Health<F> {
    /// No checks; ready and started.
    pub fn new() -> (r: Health<F>)
        ensures
            r.checks@.len() == 0,
            r.ready && r.started,
    {
        Health { checks: Vec::new(), ready: true, started: true }
    }

    /// Adds a check.
    pub fn check(self, check: HealthCheck<F>) -> (r: Health<F>)
        ensures
            r.checks@ == self.checks@.push(check),
            r.ready == self.ready && r.started == self.started,
    {
        let mut h = self;
        h.checks.push(check);
        h
    }

    pub fn set_ready(&mut self, ready: bool)
        ensures
            final(self).ready == ready,
            final(self).started == old(self).started,
            final(self).checks == old(self).checks,
    {
        self.ready = ready;
    }

    pub fn set_started(&mut self, started: bool)
        ensures
            final(self).started == started,
            final(self).ready == old(self).ready,
            final(self).checks == old(self).checks,
    {
        self.started = started;
    }

    pub fn is_ready(&self) -> (r: bool)
        ensures
            r == self.ready,
    {
        self.ready
    }

    pub fn is_started(&self) -> (r: bool)
        ensures
            r == self.started,
    {
        self.started
    }

    /// Runs every check in order; the overall status folds their outcomes.
    pub fn run_checks(&self) -> (r: (HealthStatus, Vec<HealthCheckResult>))
        requires
            forall|k: int| 0 <= k < self.checks@.len() ==> (#[trigger] self.checks@[k]).check.requires(()),
        ensures
            r.1@.len() == self.checks@.len(),
            r.0 == overall(Seq::new(self.checks@.len(), |k: int| (self.checks@[k].critical, r.1@[k].status))),
    {
        let mut results: Vec<HealthCheckResult> = Vec::new();
        let mut outcomes: Vec<(bool, HealthStatus)> = Vec::new();
        let mut i: usize = 0;
        while i < self.checks.len()
            invariant
                i <= self.checks@.len(),
                forall|k: int| 0 <= k < self.checks@.len() ==> (#[trigger] self.checks@[k]).check.requires(()),
                results@.len() == i,
                outcomes@.len() == i,
                forall|k: int| 0 <= k < i ==> (#[trigger] outcomes@[k]) == (self.checks@[k].critical, results@[k].status),
            decreases self.checks@.len() - i,
        {
            let result = self.checks[i].run();
            outcomes.push((self.checks[i].critical, result.status));
            results.push(result);
            i += 1;
        }
        let s = overall_status(outcomes.as_slice());
        assert(outcomes@ =~= Seq::new(self.checks@.len(), |k: int| (self.checks@[k].critical, results@[k].status)));
        (s, results)
    }
}

} // verus!
