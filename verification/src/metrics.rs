//! Counters of what the engine has done.

use vstd::prelude::*;

verus! {

/// A counter that the engine keeps.
#[derive(Clone, Copy, Debug, PartialEq, Eq, Hash, Structural)]
pub enum Metric {
    CommandsSuccessful,
    CommandsErrored,
    SessionsStarted,
    SessionsEnded,
}

impl Metric {
    /// The number that identifies the metric.
    pub open spec fn spec_code(self) -> u8 {
        match self {
            Metric::CommandsSuccessful => 0,
            Metric::CommandsErrored => 1,
            Metric::SessionsStarted => 10,
            Metric::SessionsEnded => 11,
        }
    }

    /// The number that identifies the metric.
    pub fn as_u8(self) -> (r: u8)
        ensures
            r == self.spec_code(),
    {
        match self {
            Metric::CommandsSuccessful => 0,
            Metric::CommandsErrored => 1,
            Metric::SessionsStarted => 10,
            Metric::SessionsEnded => 11,
        }
    }

    pub open spec fn spec_name(self) -> &'static str {
        match self {
            Metric::CommandsErrored => "commands_errored",
            Metric::CommandsSuccessful => "commands_successful",
            Metric::SessionsEnded => "sessions_ended",
            Metric::SessionsStarted => "sessions_started",
        }
    }

    /// The name under which the metric is reported.
    pub fn name(self) -> (r: &'static str)
        ensures
            r@ == self.spec_name()@,
    {
        match self {
            Metric::CommandsErrored => "commands_errored",
            Metric::CommandsSuccessful => "commands_successful",
            Metric::SessionsEnded => "sessions_ended",
            Metric::SessionsStarted => "sessions_started",
        }
    }
}

/// The counters of the engine. A counter that was never incremented has no
/// value; one that reaches the largest `u64` stays there.
#[derive(Clone, Copy, Debug, PartialEq, Eq, Structural)]
pub struct Metrics {
    commands_successful: Option<u64>,
    commands_errored: Option<u64>,
    sessions_started: Option<u64>,
    sessions_ended: Option<u64>,
}

/// A counter after one more increment.
pub open spec fn bumped(count: Option<u64>) -> Option<u64> {
    match count {
        Some(n) => Some(if n == u64::MAX {
            n
        } else {
            (n + 1) as u64
        }),
        None => Some(1),
    }
}

fn bump(count: Option<u64>) -> (r: Option<u64>)
    ensures
        r == bumped(count),
{
    match count {
        Some(n) => Some(n.saturating_add(1)),
        None => Some(1),
    }
}

impl Metrics {
    /// Counters that were never incremented.
    pub fn new() -> (r: Self)
        ensures
            forall|m: Metric| r.count(m) is None,
    {
        Metrics {
            commands_successful: None,
            commands_errored: None,
            sessions_started: None,
            sessions_ended: None,
        }
    }

    /// The value of a counter, if it was ever incremented.
    pub closed spec fn count(self, metric: Metric) -> Option<u64> {
        match metric {
            Metric::CommandsSuccessful => self.commands_successful,
            Metric::CommandsErrored => self.commands_errored,
            Metric::SessionsStarted => self.sessions_started,
            Metric::SessionsEnded => self.sessions_ended,
        }
    }

    /// The value of a counter, if it was ever incremented.
    pub fn counter(&self, metric: Metric) -> (r: Option<u64>)
        ensures
            r == self.count(metric),
    {
        match metric {
            Metric::CommandsSuccessful => self.commands_successful,
            Metric::CommandsErrored => self.commands_errored,
            Metric::SessionsStarted => self.sessions_started,
            Metric::SessionsEnded => self.sessions_ended,
        }
    }

    /// The counters after one more of `metric`.
    pub closed spec fn after(self, metric: Metric) -> Metrics {
        match metric {
            Metric::CommandsSuccessful => Metrics {
                commands_successful: bumped(self.commands_successful),
                ..self
            },
            Metric::CommandsErrored => Metrics {
                commands_errored: bumped(self.commands_errored),
                ..self
            },
            Metric::SessionsStarted => Metrics {
                sessions_started: bumped(self.sessions_started),
                ..self
            },
            Metric::SessionsEnded => Metrics { sessions_ended: bumped(self.sessions_ended), ..self },
        }
    }

    /// Counts one more of `metric`.
    pub fn increment(&mut self, metric: Metric)
        ensures
            *final(self) == old(self).after(metric),
            final(self).count(metric) == bumped(old(self).count(metric)),
            forall|m: Metric| m != metric ==> final(self).count(m) == old(self).count(m),
    {
        match metric {
            Metric::CommandsSuccessful => {
                self.commands_successful = bump(self.commands_successful);
            },
            Metric::CommandsErrored => {
                self.commands_errored = bump(self.commands_errored);
            },
            Metric::SessionsStarted => {
                self.sessions_started = bump(self.sessions_started);
            },
            Metric::SessionsEnded => {
                self.sessions_ended = bump(self.sessions_ended);
            },
        }
    }
}

/// Counting one more of a metric adds one to its counter, up to the largest
/// `u64`, and leaves every other counter as it was.
pub proof fn lemma_count_after(metrics: Metrics, metric: Metric, other: Metric)
    ensures
        metrics.after(metric).count(other) == if other == metric {
            bumped(metrics.count(other))
        } else {
            metrics.count(other)
        },
{
}

/// The value of a counter, zero when it was never incremented.
pub open spec fn value_of(count: Option<u64>) -> int {
    match count {
        Some(n) => n as int,
        None => 0,
    }
}

/// The number of commands counted, successful and errored.
pub open spec fn commands_counted(metrics: Metrics) -> int {
    value_of(metrics.count(Metric::CommandsSuccessful)) + value_of(
        metrics.count(Metric::CommandsErrored),
    )
}

/// Counting the outcome of a command, as dispatching does, counts one more
/// command, as long as neither counter has reached the largest `u64`.
pub proof fn law_one_command_counted(metrics: Metrics, succeeded: bool)
    requires
        value_of(metrics.count(Metric::CommandsSuccessful)) < u64::MAX,
        value_of(metrics.count(Metric::CommandsErrored)) < u64::MAX,
    ensures
        commands_counted(
            metrics.after(
                if succeeded {
                    Metric::CommandsSuccessful
                } else {
                    Metric::CommandsErrored
                },
            ),
        ) == commands_counted(metrics) + 1,
{
    let m = if succeeded {
        Metric::CommandsSuccessful
    } else {
        Metric::CommandsErrored
    };
    lemma_count_after(metrics, m, Metric::CommandsSuccessful);
    lemma_count_after(metrics, m, Metric::CommandsErrored);
}

} // verus!
