//! Recording and clearing of reconciliation failures.

use vstd::prelude::*;
use crate::number::{decimal_text, format_u64};
use crate::text::cat4;
use super::state::{later, Model, Retry, RuntimeActor};
use super::timing::{retry_delay, retry_delay_ms};

verus! {

/// A failure count one step on, held at the end of its range.
pub open spec fn next_failure(n: u32) -> u32 {
    if n == u32::MAX {
        n
    } else {
        (n + 1) as u32
    }
}

/// The state without a frequency failure: nothing is held back.
pub open spec fn frequency_cleared(m: Model) -> Model {
    Model {
        retry: Retry { frequency_failures: 0, frequency_not_before: 0, ..m.retry },
        ..m
    }.without_issue("reconciler.frequency_backoff"@)
}

/// The state without a scheduler failure: nothing is held back.
pub open spec fn scheduler_cleared(m: Model) -> Model {
    Model {
        retry: Retry { scheduler_failures: 0, scheduler_not_before: 0, ..m.retry },
        ..m
    }.without_issue("reconciler.scheduler_backoff"@)
}

/// The state after one more frequency failure: the next attempt waits.
pub open spec fn frequency_failed(m: Model, message: Seq<char>, now: u64) -> Model {
    let n = next_failure(m.retry.frequency_failures);
    let delay = retry_delay(n as nat);
    Model {
        retry: Retry {
            frequency_failures: n,
            frequency_not_before: later(now, delay as u64),
            ..m.retry
        },
        ..m
    }.with_issue(
        "reconciler.frequency_backoff"@,
        "error"@,
        "reconciler"@,
        message + "; retrying frequency control in "@ + decimal_text(delay) + " ms"@,
    )
}

/// The state after one more scheduler failure: the next attempt waits.
pub open spec fn scheduler_failed(m: Model, message: Seq<char>, now: u64) -> Model {
    let n = next_failure(m.retry.scheduler_failures);
    let delay = retry_delay(n as nat);
    Model {
        retry: Retry {
            scheduler_failures: n,
            scheduler_not_before: later(now, delay as u64),
            ..m.retry
        },
        ..m
    }.with_issue(
        "reconciler.scheduler_backoff"@,
        "error"@,
        "scheduler"@,
        message + "; retrying scheduler control in "@ + decimal_text(delay) + " ms"@,
    )
}

impl RuntimeActor {
    /// Forgets earlier frequency failures.
    pub fn clear_frequency_failure(&mut self)
        ensures
            final(self)@ == frequency_cleared(old(self)@),
    {
        self.retry.frequency_failures = 0;
        self.retry.frequency_not_before = 0;
        self.withdraw("reconciler.frequency_backoff");
    }

    /// Forgets earlier scheduler failures.
    pub fn clear_scheduler_failure(&mut self)
        ensures
            final(self)@ == scheduler_cleared(old(self)@),
    {
        self.retry.scheduler_failures = 0;
        self.retry.scheduler_not_before = 0;
        self.withdraw("reconciler.scheduler_backoff");
    }

    /// Records one more frequency failure.
    pub fn record_frequency_failure(&mut self, message: &str, now: u64)
        ensures
            final(self)@ == frequency_failed(old(self)@, message@, now),
    {
        let failures: u32 = self.retry.frequency_failures.saturating_add(1);
        let delay: u64 = retry_delay_ms(failures);
        self.retry.frequency_failures = failures;
        self.retry.frequency_not_before = now.saturating_add(delay);
        let number = format_u64(delay);
        let text = cat4(message, "; retrying frequency control in ", number.as_str(), " ms");
        self.report("reconciler.frequency_backoff", "error", "reconciler", text.as_str());
    }

    /// Records one more scheduler failure.
    pub fn record_scheduler_failure(&mut self, message: &str, now: u64)
        ensures
            final(self)@ == scheduler_failed(old(self)@, message@, now),
    {
        let failures: u32 = self.retry.scheduler_failures.saturating_add(1);
        let delay: u64 = retry_delay_ms(failures);
        self.retry.scheduler_failures = failures;
        self.retry.scheduler_not_before = now.saturating_add(delay);
        let number = format_u64(delay);
        let text = cat4(message, "; retrying scheduler control in ", number.as_str(), " ms");
        self.report("reconciler.scheduler_backoff", "error", "scheduler", text.as_str());
    }
}

/// Frequency and scheduler failures are separate: neither holds the other
/// back.
pub proof fn failure_domains_are_separate(m: Model, message: Seq<char>, now: u64)
    ensures
        scheduler_failed(m, message, now).retry.frequency_not_before
            == m.retry.frequency_not_before,
        frequency_failed(m, message, now).retry.scheduler_not_before
            == m.retry.scheduler_not_before,
        scheduler_failed(m, message, now).retry.frequency_failures == m.retry.frequency_failures,
        frequency_failed(m, message, now).retry.scheduler_failures == m.retry.scheduler_failures,
{
}

} // verus!
