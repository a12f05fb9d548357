//! Supervision of the programs that render previews.
//!
//! A supervised run alternates system calls, which are made elsewhere, and the decisions
//! here. Times are nanoseconds.
use vstd::prelude::*;

verus! {

/// Longest pause between two looks at a running program.
pub const PROCESS_POLL_INTERVAL: u128 = 20_000_000;

/// Why a supervised run failed; `E` is an error of a system call.
#[derive(Debug, PartialEq, Eq)]
pub enum RunFailure<E> {
    System(E),
    OutputTooLarge,
    ReaderLost,
}

impl<E> RunFailure<E> {
    /// The failure in words, unless it is an error of a system call.
    pub fn message(&self) -> (text: Option<&'static str>)
        ensures
            match self {
                RunFailure::System(_) => text is None,
                RunFailure::OutputTooLarge => text matches Some(words) && words@
                    == "Preview provider output exceeded its limit"@,
                RunFailure::ReaderLost => text matches Some(words) && words@
                    == "Unable to read provider output"@,
            },
    {
        match self {
            RunFailure::System(_) => None,
            RunFailure::OutputTooLarge => Some("Preview provider output exceeded its limit"),
            RunFailure::ReaderLost => Some("Unable to read provider output"),
        }
    }
}

/// News from the thread that reads the program's output.
#[derive(Debug)]
pub enum ReaderNews<E> {
    /// It read everything, or one byte more than the limit.
    Finished(Vec<u8>),
    Failed(E),
    /// It is gone without a word.
    Lost,
    /// It is still reading.
    Busy,
}

/// What is known of a program under supervision: how it ended, and what it wrote.
#[derive(Debug)]
pub struct BoundedRun<S> {
    pub status: Option<S>,
    pub output: Option<Vec<u8>>,
}

/// What to do with a program that has been looked at.
#[derive(Debug, PartialEq, Eq)]
pub enum RunStep<S> {
    /// It is done, with this status and output.
    Finished(S, Vec<u8>),
    /// Its time is up: stop it.
    TimedOut,
    /// Look again after this many nanoseconds.
    Sleep(u128),
}

/// The pause before the next look, never beyond the deadline.
pub open spec fn pause(remaining: u128) -> u128 {
    if PROCESS_POLL_INTERVAL <= remaining {
        PROCESS_POLL_INTERVAL
    } else {
        remaining
    }
}

/// The number of bytes to read at most: one more than the limit, so that an output beyond
/// it shows.
pub fn read_limit(max_bytes: u64) -> (limit: u64)
    ensures
        limit == if max_bytes < u64::MAX {
            (max_bytes + 1) as u64
        } else {
            u64::MAX
        },
{
    max_bytes.saturating_add(1)
}

/// Accepts what was read unless it is longer than the limit.
pub fn read_limited<E>(read: Result<Vec<u8>, E>, max_bytes: u64) -> (data: Result<
    Vec<u8>,
    RunFailure<E>,
>)
    ensures
        data == match read {
            Err(error) => Err(RunFailure::System(error)),
            Ok(bytes) => if bytes@.len() > max_bytes {
                Err(RunFailure::OutputTooLarge)
            } else {
                Ok(bytes)
            },
        },
{
    match read {
        Err(error) => Err(RunFailure::System(error)),
        Ok(bytes) => {
            if bytes.len() as u64 > max_bytes {
                Err(RunFailure::OutputTooLarge)
            } else {
                Ok(bytes)
            }
        },
    }
}

/// Whether a run with this time limit is started at all.
pub fn should_start(timeout: u128) -> (start: bool)
    ensures
        start == (timeout > 0),
{
    timeout > 0
}

impl<S> BoundedRun<S> {
    /// A program that has just been started.
    pub fn new() -> (run: Self)
        ensures
            run.status is None,
            run.output is None,
    {
        BoundedRun { status: None, output: None }
    }

    /// Whether to ask how the program ended.
    pub fn wants_status(&self) -> (wanted: bool)
        ensures
            wanted == (self.status is None),
    {
        self.status.is_none()
    }

    /// Takes the answer: how the program ended, or that it has not; an error means to stop
    /// it.
    pub fn take_status<E>(&mut self, answer: Result<Option<S>, E>) -> (taken: Result<
        (),
        RunFailure<E>,
    >)
        requires
            old(self).status is None,
        ensures
            final(self).output == old(self).output,
            match answer {
                Ok(status) => taken is Ok && final(self).status == status,
                Err(error) => taken == Result::<(), RunFailure<E>>::Err(RunFailure::System(error))
                    && final(self).status is None,
            },
    {
        match answer {
            Ok(status) => {
                self.status = status;
                Ok(())
            },
            Err(error) => Err(RunFailure::System(error)),
        }
    }

    /// Whether to ask the reader for news.
    pub fn wants_output(&self) -> (wanted: bool)
        ensures
            wanted == (self.output is None),
    {
        self.output.is_none()
    }

    /// Takes news from the reader; an error means to stop the program.
    pub fn take_output<E>(&mut self, news: ReaderNews<E>, max_bytes: u64) -> (taken: Result<
        (),
        RunFailure<E>,
    >)
        requires
            old(self).output is None,
        ensures
            final(self).status == old(self).status,
            match news {
                ReaderNews::Finished(data) => if data@.len() > max_bytes {
                    taken == Result::<(), RunFailure<E>>::Err(RunFailure::OutputTooLarge)
                        && final(self).output is None
                } else {
                    taken is Ok && final(self).output == Some(data)
                },
                ReaderNews::Failed(error) => taken == Result::<(), RunFailure<E>>::Err(
                    RunFailure::System(error),
                ) && final(self).output is None,
                ReaderNews::Lost => taken == Result::<(), RunFailure<E>>::Err(
                    RunFailure::ReaderLost,
                ) && final(self).output is None,
                ReaderNews::Busy => taken is Ok && final(self).output is None,
            },
    {
        match news {
            ReaderNews::Finished(data) => {
                if data.len() as u64 > max_bytes {
                    return Err(RunFailure::OutputTooLarge);
                }
                self.output = Some(data);
                Ok(())
            },
            ReaderNews::Failed(error) => Err(RunFailure::System(error)),
            ReaderNews::Lost => Err(RunFailure::ReaderLost),
            ReaderNews::Busy => Ok(()),
        }
    }

    /// Decides after a look: the run is over once the program has ended and all its output
    /// is there, even if the deadline has passed meanwhile.
    pub fn next_step(&mut self, remaining: u128) -> (step: RunStep<S>)
        ensures
            match step {
                RunStep::Finished(status, output) => old(self).status == Some(status)
                    && old(self).output == Some(output),
                RunStep::TimedOut => remaining == 0 && (old(self).status is None
                    || old(self).output is None) && *final(self) == *old(self),
                RunStep::Sleep(time) => remaining > 0 && (old(self).status is None
                    || old(self).output is None) && *final(self) == *old(self) && time == pause(
                    remaining,
                ),
            },
    {
        if self.status.is_some() && self.output.is_some() {
            match (self.status.take(), self.output.take()) {
                (Some(status), Some(output)) => RunStep::Finished(status, output),
                _ => RunStep::TimedOut,
            }
        } else if remaining == 0 {
            RunStep::TimedOut
        } else if PROCESS_POLL_INTERVAL <= remaining {
            RunStep::Sleep(PROCESS_POLL_INTERVAL)
        } else {
            RunStep::Sleep(remaining)
        }
    }
}

/// What to do with a program whose output nobody reads.
#[derive(Clone, Copy, Debug, PartialEq, Eq, Structural)]
pub enum WatchStep {
    /// It ended; it succeeded or not.
    Finished(bool),
    /// Its time is up: stop it, it counts as failed.
    TimedOut,
    /// Look again after this many nanoseconds.
    Sleep(u128),
}

/// Decides after a look at a program whose output nobody reads, given whether it ended
/// with success.
pub fn watch_step(ended: Option<bool>, remaining: u128) -> (step: WatchStep)
    ensures
        step == match ended {
            Some(success) => WatchStep::Finished(success),
            None => if remaining == 0 {
                WatchStep::TimedOut
            } else {
                WatchStep::Sleep(pause(remaining))
            },
        },
{
    match ended {
        Some(success) => WatchStep::Finished(success),
        None => {
            if remaining == 0 {
                WatchStep::TimedOut
            } else if PROCESS_POLL_INTERVAL <= remaining {
                WatchStep::Sleep(PROCESS_POLL_INTERVAL)
            } else {
                WatchStep::Sleep(remaining)
            }
        },
    }
}

/// A pause never outlasts the deadline, and is never empty before it.
pub proof fn pauses_respect_the_deadline(remaining: u128)
    requires
        remaining > 0,
    ensures
        0 < pause(remaining) <= remaining,
        pause(remaining) <= PROCESS_POLL_INTERVAL,
{
}

/// The next look comes after twenty milliseconds, or at the deadline if that is sooner.
pub proof fn looks_are_twenty_milliseconds_apart(remaining: u128)
    ensures
        pause(remaining) == vstd::math::min(remaining as int, 20_000_000),
{
}

} // verus!
