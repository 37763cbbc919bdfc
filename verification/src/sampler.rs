//! The decisions of the two sampling loops, as state machines. The caller takes a
//! sample, hands the outcome to the sampler, and carries out the action it gets back.

use vstd::prelude::*;
use crate::error::SpyError;
use crate::error::{permission_denied, process_exitted};
use crate::stack_trace::StackTrace;
use crate::text::{push_decimal, push_text, spec_decimal, string_from_chars};

verus! {

/// Milliseconds between two samples of the console loop.
pub const CONSOLE_RATE_MS: u64 = 10;

/// Milliseconds after which the console is redrawn whether or not it asks for it.
pub const CONSOLE_REFRESH_MS: u64 = 1000;

/// The console loop ends when more process-gone failures than this come in a row.
pub const CONSOLE_EXIT_LIMIT: u64 = 5;

/// The number of sampling attempts of the flame loop.
pub const FLAME_MAX_SAMPLES: u64 = 2000;

/// The flame loop ends when more process-gone failures than this come in a row.
pub const FLAME_EXIT_LIMIT: u64 = 3;

/// What one attempt to sample gave.
#[derive(Clone, Copy, Debug, PartialEq, Eq, Structural)]
pub enum Outcome {
    /// Stack traces were read.
    Traces,
    /// The attempt failed because access to the target was refused.
    Refused,
    /// The attempt failed because the target process is gone.
    Exited,
    /// The attempt failed for another reason.
    Failed,
}

/// The outcome that a sampling result stands for. A failure with a
/// permission-denied cause in its chain is a refusal, whatever else the chain
/// holds; else one with a cause that says the process is gone is an exit.
pub open spec fn spec_outcome(result: Result<Vec<StackTrace>, SpyError>) -> Outcome {
    match result {
        Ok(_) => Outcome::Traces,
        Err(e) => if e.spec_permission_denied() {
            Outcome::Refused
        } else if e.spec_process_exitted() {
            Outcome::Exited
        } else {
            Outcome::Failed
        },
    }
}

/// Classifies a sampling result.
pub fn outcome_of(result: &Result<Vec<StackTrace>, SpyError>) -> (outcome: Outcome)
    ensures
        outcome == spec_outcome(*result),
{
    match result {
        Ok(_) => Outcome::Traces,
        Err(e) => {
            if permission_denied(e) {
                Outcome::Refused
            } else if process_exitted(e) {
                Outcome::Exited
            } else {
                Outcome::Failed
            }
        },
    }
}

/// What the console loop does with a sample.
#[derive(Clone, Copy, Debug, PartialEq, Eq, Structural)]
pub enum ConsoleAction {
    /// Hand the traces to the viewer.
    Record,
    /// Hand the error to the viewer.
    RecordError,
    /// Nothing to show: a process-gone failure was counted.
    Skip,
    /// The process has ended: report it and leave the loop.
    Stop,
    /// Access was refused: leave the loop at once and fail with the sample's error.
    Fail,
}

/// The state of the console loop.
#[derive(Clone, Copy, Debug, PartialEq, Eq, Structural)]
pub struct ConsoleSampler {
    /// Milliseconds since the console was last redrawn.
    pub elapsed: u64,
    /// Process-gone failures in a row.
    pub exitted_count: u64,
}

impl ConsoleSampler {
    /// The state after a sample, and what to do with the sample. A refusal ends
    /// the loop at once; an exit ends it once more than `CONSOLE_EXIT_LIMIT` have
    /// come in a row.
    pub open spec fn spec_on_sample(self, outcome: Outcome) -> (ConsoleSampler, ConsoleAction) {
        match outcome {
            Outcome::Refused => (self, ConsoleAction::Fail),
            Outcome::Traces => (
                ConsoleSampler { elapsed: self.elapsed, exitted_count: 0 },
                ConsoleAction::Record,
            ),
            Outcome::Failed => (
                ConsoleSampler { elapsed: self.elapsed, exitted_count: 0 },
                ConsoleAction::RecordError,
            ),
            Outcome::Exited => if self.exitted_count >= CONSOLE_EXIT_LIMIT {
                (self, ConsoleAction::Stop)
            } else {
                (
                    ConsoleSampler {
                        elapsed: self.elapsed,
                        exitted_count: (self.exitted_count + 1) as u64,
                    },
                    ConsoleAction::Skip,
                )
            },
        }
    }

    /// The state after the pause that follows a sample, and whether the console is
    /// redrawn before the pause: it is when the viewer asks for it or when a second
    /// has gone by since the last time.
    pub open spec fn spec_on_tick(self, should_refresh: bool) -> (ConsoleSampler, bool) {
        if should_refresh || self.elapsed >= CONSOLE_REFRESH_MS {
            (ConsoleSampler { elapsed: CONSOLE_RATE_MS, exitted_count: self.exitted_count }, true)
        } else {
            (
                ConsoleSampler {
                    elapsed: (self.elapsed + CONSOLE_RATE_MS) as u64,
                    exitted_count: self.exitted_count,
                },
                false,
            )
        }
    }

    /// The state at the start of the loop.
    pub fn new() -> (s: ConsoleSampler)
        ensures
            s.elapsed == 0,
            s.exitted_count == 0,
    {
        ConsoleSampler { elapsed: 0, exitted_count: 0 }
    }

    /// Takes in the outcome of a sample.
    pub fn on_sample(self, outcome: Outcome) -> (next: (ConsoleSampler, ConsoleAction))
        ensures
            next == self.spec_on_sample(outcome),
    {
        match outcome {
            Outcome::Refused => (self, ConsoleAction::Fail),
            Outcome::Traces => (
                ConsoleSampler { elapsed: self.elapsed, exitted_count: 0 },
                ConsoleAction::Record,
            ),
            Outcome::Failed => (
                ConsoleSampler { elapsed: self.elapsed, exitted_count: 0 },
                ConsoleAction::RecordError,
            ),
            Outcome::Exited => {
                if self.exitted_count >= CONSOLE_EXIT_LIMIT {
                    (self, ConsoleAction::Stop)
                } else {
                    (
                        ConsoleSampler {
                            elapsed: self.elapsed,
                            exitted_count: self.exitted_count + 1,
                        },
                        ConsoleAction::Skip,
                    )
                }
            },
        }
    }

    /// Decides whether to redraw, and accounts for the pause that follows.
    pub fn on_tick(self, should_refresh: bool) -> (next: (ConsoleSampler, bool))
        ensures
            next == self.spec_on_tick(should_refresh),
    {
        if should_refresh || self.elapsed >= CONSOLE_REFRESH_MS {
            (ConsoleSampler { elapsed: CONSOLE_RATE_MS, exitted_count: self.exitted_count }, true)
        } else {
            (
                ConsoleSampler {
                    elapsed: self.elapsed + CONSOLE_RATE_MS,
                    exitted_count: self.exitted_count,
                },
                false,
            )
        }
    }
}

/// The console state after `n` process-gone failures in a row.
pub open spec fn console_after_exits(start: ConsoleSampler, n: nat) -> ConsoleSampler
    decreases n,
{
    if n == 0 {
        start
    } else {
        console_after_exits(start, (n - 1) as nat).spec_on_sample(Outcome::Exited).0
    }
}

/// Starting from any state reached after a sample that succeeded or failed for
/// another reason, the console loop goes on through five process-gone failures in
/// a row and stops at the sixth.
pub proof fn lemma_console_stops_at_sixth_exit(start: ConsoleSampler, n: nat)
    requires
        start.exitted_count == 0,
    ensures
        n <= CONSOLE_EXIT_LIMIT ==> console_after_exits(start, n).exitted_count == n,
        n < CONSOLE_EXIT_LIMIT ==> console_after_exits(start, n).spec_on_sample(Outcome::Exited).1
            == ConsoleAction::Skip,
        n == CONSOLE_EXIT_LIMIT ==> console_after_exits(start, n).spec_on_sample(
            Outcome::Exited,
        ).1 == ConsoleAction::Stop,
    decreases n,
{
    if n > 0 {
        lemma_console_stops_at_sixth_exit(start, (n - 1) as nat);
    }
}

/// What the flame loop does with a sample.
#[derive(Clone, Copy, Debug, PartialEq, Eq, Structural)]
pub enum FlameAction {
    /// Add the traces to the flame graph and advance the progress bar.
    Record,
    /// An error was counted: advance the progress bar.
    CountError,
    /// The process has ended, or every sample was taken: leave the loop.
    Stop,
    /// Access was refused: leave the loop at once and fail with the sample's error;
    /// no flame graph is written.
    Fail,
}

/// The state of the flame loop.
#[derive(Clone, Copy, Debug, PartialEq, Eq, Structural)]
pub struct FlameSampler {
    /// Sampling attempts accounted for.
    pub taken: u64,
    /// Attempts that gave traces.
    pub samples: u64,
    /// Attempts that failed.
    pub errors: u64,
    /// Process-gone failures in a row.
    pub exitted_count: u64,
    /// Whether the loop was left early: the process ended or access was refused.
    pub ended: bool,
}

impl FlameSampler {
    /// Every attempt accounted for gave traces or an error, and no more attempts
    /// are made than the loop allows.
    pub open spec fn wf(self) -> bool {
        &&& self.samples + self.errors == self.taken
        &&& self.taken <= FLAME_MAX_SAMPLES
        &&& self.exitted_count <= self.errors
    }

    /// Whether the loop takes another sample.
    pub open spec fn spec_wants_sample(self) -> bool {
        !self.ended && self.taken < FLAME_MAX_SAMPLES
    }

    /// The state after a sample, and what to do with the sample.
    pub open spec fn spec_on_sample(self, outcome: Outcome) -> (FlameSampler, FlameAction) {
        if !self.spec_wants_sample() {
            (self, FlameAction::Stop)
        } else {
            match outcome {
                Outcome::Refused => (FlameSampler { ended: true, ..self }, FlameAction::Fail),
                Outcome::Traces => (
                    FlameSampler {
                        taken: (self.taken + 1) as u64,
                        samples: (self.samples + 1) as u64,
                        exitted_count: 0,
                        ..self
                    },
                    FlameAction::Record,
                ),
                Outcome::Failed => (
                    FlameSampler {
                        taken: (self.taken + 1) as u64,
                        errors: (self.errors + 1) as u64,
                        exitted_count: 0,
                        ..self
                    },
                    FlameAction::CountError,
                ),
                Outcome::Exited => if self.exitted_count >= FLAME_EXIT_LIMIT {
                    (FlameSampler { ended: true, ..self }, FlameAction::Stop)
                } else {
                    (
                        FlameSampler {
                            taken: (self.taken + 1) as u64,
                            errors: (self.errors + 1) as u64,
                            exitted_count: (self.exitted_count + 1) as u64,
                            ..self
                        },
                        FlameAction::CountError,
                    )
                },
            }
        }
    }

    /// The state at the start of the loop.
    pub fn new() -> (s: FlameSampler)
        ensures
            s.wf(),
            s.taken == 0,
            s.samples == 0,
            s.errors == 0,
            s.exitted_count == 0,
            !s.ended,
    {
        FlameSampler { taken: 0, samples: 0, errors: 0, exitted_count: 0, ended: false }
    }

    /// Whether the loop takes another sample: it does until the process has ended
    /// or all attempts are used up.
    pub fn wants_sample(&self) -> (wants: bool)
        ensures
            wants == self.spec_wants_sample(),
    {
        !self.ended && self.taken < FLAME_MAX_SAMPLES
    }

    /// Takes in the outcome of a sample.
    pub fn on_sample(self, outcome: Outcome) -> (next: (FlameSampler, FlameAction))
        requires
            self.wf(),
        ensures
            next == self.spec_on_sample(outcome),
            next.0.wf(),
    {
        if !self.wants_sample() {
            return (self, FlameAction::Stop);
        }
        match outcome {
            Outcome::Refused => (
                FlameSampler {
                    taken: self.taken,
                    samples: self.samples,
                    errors: self.errors,
                    exitted_count: self.exitted_count,
                    ended: true,
                },
                FlameAction::Fail,
            ),
            Outcome::Traces => (
                FlameSampler {
                    taken: self.taken + 1,
                    samples: self.samples + 1,
                    errors: self.errors,
                    exitted_count: 0,
                    ended: self.ended,
                },
                FlameAction::Record,
            ),
            Outcome::Failed => (
                FlameSampler {
                    taken: self.taken + 1,
                    samples: self.samples,
                    errors: self.errors + 1,
                    exitted_count: 0,
                    ended: self.ended,
                },
                FlameAction::CountError,
            ),
            Outcome::Exited => {
                if self.exitted_count >= FLAME_EXIT_LIMIT {
                    (
                        FlameSampler {
                            taken: self.taken,
                            samples: self.samples,
                            errors: self.errors,
                            exitted_count: self.exitted_count,
                            ended: true,
                        },
                        FlameAction::Stop,
                    )
                } else {
                    (
                        FlameSampler {
                            taken: self.taken + 1,
                            samples: self.samples,
                            errors: self.errors + 1,
                            exitted_count: self.exitted_count + 1,
                            ended: self.ended,
                        },
                        FlameAction::CountError,
                    )
                }
            },
        }
    }

    /// The line printed once the flame graph is written.
    pub fn summary(&self, filename: &str) -> (line: String)
        ensures
            line@ == spec_flame_summary(filename@, self.samples as nat, self.errors as nat),
    {
        let mut out: Vec<char> = Vec::new();
        push_text(&mut out, "Wrote flame graph '");
        push_text(&mut out, filename);
        push_text(&mut out, "'. Samples: ");
        push_decimal(&mut out, self.samples);
        push_text(&mut out, " Errors: ");
        push_decimal(&mut out, self.errors);
        string_from_chars(&out)
    }
}

/// The line printed once the flame graph is written.
pub open spec fn spec_flame_summary(filename: Seq<char>, samples: nat, errors: nat) -> Seq<char> {
    "Wrote flame graph '"@ + filename + "'. Samples: "@ + spec_decimal(samples) + " Errors: "@
        + spec_decimal(errors)
}

/// The line printed when the target process has ended.
pub open spec fn spec_ended_message(pid: nat) -> Seq<char> {
    "process "@ + spec_decimal(pid) + " ended"@
}

/// The line printed when the target process has ended.
pub fn ended_message(pid: u32) -> (line: String)
    ensures
        line@ == spec_ended_message(pid as nat),
{
    let mut out: Vec<char> = Vec::new();
    push_text(&mut out, "process ");
    push_decimal(&mut out, pid as u64);
    push_text(&mut out, " ended");
    string_from_chars(&out)
}

/// The flame loop never accounts for more attempts than it allows, so it records
/// at most that many samples, and a state that wants no sample stays as it is.
pub proof fn lemma_flame_bounded(s: FlameSampler, outcome: Outcome)
    requires
        s.wf(),
    ensures
        s.spec_on_sample(outcome).0.wf(),
        s.spec_on_sample(outcome).0.samples <= FLAME_MAX_SAMPLES,
        s.spec_on_sample(outcome).0.taken <= s.taken + 1,
        !s.spec_wants_sample() ==> s.spec_on_sample(outcome) == (s, FlameAction::Stop),
{
}

/// A refused access ends sampling at once. Whatever the state of the console loop,
/// and whatever the state of a flame loop that still takes samples, a sample that
/// failed with a permission-denied cause in its chain is answered by the action
/// that leaves the loop with the failure, and the flame loop takes no further
/// sample.
pub proof fn lemma_refusal_ends_sampling(
    console: ConsoleSampler,
    flame: FlameSampler,
    result: Result<Vec<StackTrace>, SpyError>,
)
    requires
        result matches Err(e) && e.spec_permission_denied(),
    ensures
        spec_outcome(result) == Outcome::Refused,
        console.spec_on_sample(spec_outcome(result)).1 == ConsoleAction::Fail,
        flame.spec_wants_sample() ==> flame.spec_on_sample(spec_outcome(result)).1
            == FlameAction::Fail && !flame.spec_on_sample(spec_outcome(result)).0.spec_wants_sample(),
{
}

} // verus!
