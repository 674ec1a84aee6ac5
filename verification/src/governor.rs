//! Retry governor: tolerates sparse failures forever, aborts on dense bursts.
//!
//! The runner retries the discovery/watch pipeline on every failure. This
//! module decides, from the failure history alone, whether a failure is
//! retried or whether the pipeline gives up. A failure arriving more
//! than ten seconds after the previous one starts a fresh failure
//! session, whose age is counted from that failure; within a session a
//! pain score combines the failure rate (scaled by 100) with the
//! session's age in seconds, and a score above 100 is fatal.

use vstd::prelude::*;

use crate::error::MyError;
use vstd::string::StringExecFns;

verus! {

/// Millisecond gap above which a failure starts a new session.
pub const SESSION_GAP_MS: u64 = 10_000;

/// Pain score above which the governor gives up.
pub const PAIN_LIMIT: u64 = 100;

/// Aggregate failure counters of the current failure session.
#[derive(Debug, Clone, Copy, PartialEq, Eq, Structural)]
pub struct PainState {
    /// Failures seen in the current session.
    pub errorcount: u64,
    /// Time of the session's first failure, in milliseconds.
    pub first_error_ms: u64,
    /// Time of the most recent failure, in milliseconds.
    pub last_error_ms: u64,
}

/// Whole seconds elapsed since the session's first failure.
pub open spec fn session_seconds(first_ms: u64, now_ms: u64) -> int {
    (now_ms - first_ms) / 1000
}

/// Failure count scaled by 100, saturating at `u64::MAX`.
pub open spec fn saturating_scaled_count(errorcount: u64) -> int {
    if errorcount * 100 > u64::MAX {
        u64::MAX as int
    } else {
        errorcount * 100
    }
}

/// Failure rate of the session: scaled count per elapsed second.
/// A session younger than one second rates as `u64::MAX`.
pub open spec fn scaled_rate(errorcount: u64, secs: int) -> int {
    if secs == 0 {
        u64::MAX as int
    } else {
        saturating_scaled_count(errorcount) / secs
    }
}

/// Pain of a failure at `now_ms`, given the session counters:
/// rate plus session age in seconds, saturating at `u64::MAX`.
pub open spec fn pain_score(errorcount: u64, first_ms: u64, now_ms: u64) -> int {
    let secs = session_seconds(first_ms, now_ms);
    let rate = scaled_rate(errorcount, secs);
    if rate + secs > u64::MAX {
        u64::MAX as int
    } else {
        rate + secs
    }
}

/// State after recording one failure at `now_ms`: the first failure of
/// a session (and a failure after a gap above `SESSION_GAP_MS`, which
/// starts a new session) opens the session at `now_ms`; `None` means the
/// governor gives up instead of retrying.
pub open spec fn spec_on_failure(s: PainState, now_ms: u64) -> Option<PainState> {
    if s.errorcount == 0 {
        Some(PainState { errorcount: 1, first_error_ms: now_ms, last_error_ms: now_ms })
    } else if now_ms - s.last_error_ms > SESSION_GAP_MS {
        Some(PainState { errorcount: 1, first_error_ms: now_ms, last_error_ms: now_ms })
    } else if pain_score(s.errorcount, s.first_error_ms, now_ms) > PAIN_LIMIT {
        None
    } else {
        Some(
            PainState {
                errorcount: (s.errorcount + 1) as u64,
                first_error_ms: s.first_error_ms,
                last_error_ms: now_ms,
            },
        )
    }
}

impl PainState {
    /// Counters before any failure was seen.
    pub open spec fn spec_new() -> PainState {
        PainState { errorcount: 0, first_error_ms: 0, last_error_ms: 0 }
    }

    pub fn new() -> (s: PainState)
        ensures
            s == PainState::spec_new(),
    {
        PainState { errorcount: 0, first_error_ms: 0, last_error_ms: 0 }
    }

    /// Records a failure at `now_ms` and decides retry versus giving up.
    /// `Ok` carries the counters to retry with; `Err` is the fatal
    /// too-many-errors condition.
    pub fn on_failure(&self, now_ms: u64) -> (r: Result<PainState, MyError>)
        requires
            self.errorcount < u64::MAX,
            now_ms >= self.last_error_ms,
            now_ms >= self.first_error_ms,
        ensures
            r matches Ok(s) ==> spec_on_failure(*self, now_ms) == Some(s),
            r is Err ==> spec_on_failure(*self, now_ms) is None,
            r matches Err(e) ==> e matches MyError::Generic(m) && m@ == "too many errors, exiting"@,
    {
        if self.errorcount == 0 {
            Ok(PainState { errorcount: 1, first_error_ms: now_ms, last_error_ms: now_ms })
        } else if now_ms - self.last_error_ms > SESSION_GAP_MS {
            Ok(PainState { errorcount: 1, first_error_ms: now_ms, last_error_ms: now_ms })
        } else {
            let secs: u64 = (now_ms - self.first_error_ms) / 1000;
            let scaled: u64 = if self.errorcount > u64::MAX / 100 {
                u64::MAX
            } else {
                self.errorcount * 100
            };
            let rate: u64 = if secs == 0 {
                u64::MAX
            } else {
                scaled / secs
            };
            let pain: u64 = if rate > u64::MAX - secs {
                u64::MAX
            } else {
                rate + secs
            };
            if pain > PAIN_LIMIT {
                Err(MyError::Generic(String::from_str("too many errors, exiting")))
            } else {
                Ok(
                    PainState {
                        errorcount: self.errorcount + 1,
                        first_error_ms: self.first_error_ms,
                        last_error_ms: now_ms,
                    },
                )
            }
        }
    }
}

/// The governor's verdict over a whole series of failures at the given
/// times: the counters after folding every failure in order, or `None`
/// as soon as one failure is fatal.
pub open spec fn spec_run_failures(s: PainState, times: Seq<u64>) -> Option<PainState>
    decreases times.len(),
{
    if times.len() == 0 {
        Some(s)
    } else {
        match spec_on_failure(s, times[0]) {
            Some(s2) => spec_run_failures(s2, times.drop_first()),
            None => None,
        }
    }
}

/// The failure times arrive in order, each more than the session gap
/// after the one before.
pub open spec fn spec_sparse(times: Seq<u64>) -> bool {
    forall|i: int|
        #![trigger times[i]]
        0 < i < times.len() ==> times[i] - times[i - 1] > SESSION_GAP_MS
}

proof fn lemma_sparse_from(s: PainState, times: Seq<u64>)
    requires
        s.errorcount == 1,
        spec_sparse(times),
        times.len() > 0 ==> times[0] - s.last_error_ms > SESSION_GAP_MS,
    ensures
        spec_run_failures(s, times) is Some,
    decreases times.len(),
{
    if times.len() > 0 {
        let s2 = PainState {
            errorcount: 1,
            first_error_ms: times[0],
            last_error_ms: times[0],
        };
        assert(spec_on_failure(s, times[0]) == Some(s2));
        let rest = times.drop_first();
        assert(spec_sparse(rest)) by {
            assert(forall|i: int|
                #![trigger rest[i]]
                0 < i < rest.len() ==> rest[i] == times[i + 1] && rest[i - 1] == times[i]);
        }
        if rest.len() > 0 {
            assert(rest[0] == times[1]);
            assert(times[1] - times[0] > SESSION_GAP_MS);
        }
        lemma_sparse_from(s2, rest);
    }
}

/// Sparse failures are tolerated forever: failures that each arrive
/// more than the session gap after the one before never drive the
/// governor fatal, however many there are.
pub proof fn lemma_sparse_failures_never_fatal(times: Seq<u64>)
    requires
        spec_sparse(times),
    ensures
        spec_run_failures(PainState::spec_new(), times) is Some,
{
    if times.len() > 0 {
        let t0 = times[0];
        let s1 = PainState { errorcount: 1, first_error_ms: t0, last_error_ms: t0 };
        assert(spec_on_failure(PainState::spec_new(), t0) == Some(s1));
        let rest = times.drop_first();
        assert(spec_sparse(rest)) by {
            assert(forall|i: int|
                #![trigger rest[i]]
                0 < i < rest.len() ==> rest[i] == times[i + 1] && rest[i - 1] == times[i]);
        }
        if rest.len() > 0 {
            assert(rest[0] == times[1]);
            assert(times[1] - times[0] > SESSION_GAP_MS);
        }
        lemma_sparse_from(s1, rest);
    }
}

/// A dense burst is fatal: once a fresh session's second failure comes
/// within the same second as its first, the governor gives up, whatever
/// follows.
pub proof fn lemma_dense_failures_fatal(times: Seq<u64>)
    requires
        times.len() >= 2,
        times[0] <= times[1],
        times[1] - times[0] < 1000,
    ensures
        spec_run_failures(PainState::spec_new(), times) is None,
{
    let t0 = times[0];
    let t1 = times[1];
    let s1 = PainState { errorcount: 1, first_error_ms: t0, last_error_ms: t0 };
    assert(spec_on_failure(PainState::spec_new(), t0) == Some(s1));
    assert(session_seconds(t0, t1) == 0);
    assert(scaled_rate(1, 0) == u64::MAX as int);
    assert(pain_score(1, t0, t1) == u64::MAX as int);
    assert(spec_on_failure(s1, t1) is None);
    assert(times.drop_first()[0] == t1);
    assert(spec_run_failures(PainState::spec_new(), times) == spec_run_failures(
        s1,
        times.drop_first(),
    ));
    assert(spec_run_failures(s1, times.drop_first()) is None);
}

} // verus!
