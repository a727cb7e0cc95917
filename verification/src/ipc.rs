//! The messages that cross the report channel, and the rule by which a
//! publisher retries after the channel failed.

use vstd::prelude::*;

use crate::error::DeskError;
use crate::models::PortfolioStats;

verus! {

#[derive(Debug, Clone, Copy, PartialEq, Eq)]
pub struct Ping;

#[derive(Debug, Clone, Copy, PartialEq, Eq)]
pub struct Pong;

/// One record of the report channel.
#[derive(Debug, PartialEq, Eq)]
pub enum IpcMessage {
    Ping(Ping),
    Pong(Pong),
    PortfolioStats(PortfolioStats),
}

/// What a publisher does after a failed attempt to publish.
#[derive(Debug, Clone, Copy, PartialEq, Eq, Structural)]
pub enum PublishStep {
    /// Wait this many milliseconds, then try again.
    RetryAfter(u64),
    /// Stop trying and report the failure.
    GiveUp(DeskError),
}

/// The wait before the retry that follows `failures` failed attempts in a
/// row (at least one): `base_ms` after the first, twice the last wait after
/// each more, and never more than `cap_ms`.
pub open spec fn retry_delay(base_ms: u64, cap_ms: u64, failures: nat) -> nat
    decreases failures,
{
    if failures <= 1 {
        if base_ms <= cap_ms {
            base_ms as nat
        } else {
            cap_ms as nat
        }
    } else {
        let last = retry_delay(base_ms, cap_ms, (failures - 1) as nat);
        if 2 * last <= cap_ms {
            2 * last
        } else {
            cap_ms as nat
        }
    }
}

/// No wait is longer than the cap, and no wait is shorter than the one
/// before it.
pub proof fn law_retry_delay_bounded(base_ms: u64, cap_ms: u64, failures: nat)
    ensures
        retry_delay(base_ms, cap_ms, failures) <= cap_ms,
        failures >= 1 ==> retry_delay(base_ms, cap_ms, failures) <= retry_delay(
            base_ms,
            cap_ms,
            failures + 1,
        ),
    decreases failures,
{
    if failures > 1 {
        law_retry_delay_bounded(base_ms, cap_ms, (failures - 1) as nat);
    }
    if failures >= 1 {
        assert(retry_delay(base_ms, cap_ms, failures + 1) == (if 2 * retry_delay(
            base_ms,
            cap_ms,
            failures,
        ) <= cap_ms {
            2 * retry_delay(base_ms, cap_ms, failures)
        } else {
            cap_ms as nat
        }));
    }
}

/// How a publisher retries: with waits that double from `base_ms` up to
/// `cap_ms`, and at most `max_retries` times for one record.
#[derive(Debug, Clone, Copy, PartialEq, Eq)]
pub struct RetryPolicy {
    pub base_ms: u64,
    pub cap_ms: u64,
    pub max_retries: u32,
}

impl RetryPolicy {
    /// What to do after `failures` attempts to publish one record have
    /// failed in a row.
    pub open spec fn step(self, failures: u32) -> PublishStep {
        if failures == 0 || failures > self.max_retries {
            PublishStep::GiveUp(DeskError::TransportFailure)
        } else {
            PublishStep::RetryAfter(
                retry_delay(self.base_ms, self.cap_ms, failures as nat) as u64,
            )
        }
    }

    /// What to do after `failures` attempts to publish one record have
    /// failed in a row: retry after the wait for that many failures, or,
    /// once the retries are used up, give up with `TransportFailure`.
    /// Without a failure there is nothing to retry.
    pub fn after_failure(&self, failures: u32) -> (step: PublishStep)
        ensures
            step == self.step(failures),
    {
        if failures == 0 || failures > self.max_retries {
            return PublishStep::GiveUp(DeskError::TransportFailure);
        }
        let mut delay: u64 = if self.base_ms <= self.cap_ms {
            self.base_ms
        } else {
            self.cap_ms
        };
        let mut counted: u32 = 1;
        while counted < failures
            invariant
                1 <= counted <= failures,
                delay == retry_delay(self.base_ms, self.cap_ms, counted as nat),
                delay <= self.cap_ms,
            decreases failures - counted,
        {
            if delay <= self.cap_ms / 2 {
                delay = 2 * delay;
            } else {
                delay = self.cap_ms;
            }
            counted = counted + 1;
        }
        PublishStep::RetryAfter(delay)
    }
}

} // verus!
