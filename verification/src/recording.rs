//! The counters of one recording window.

use crate::classify::ParseResult;
use vstd::prelude::*;

verus! {

/// The counters of the window that is being recorded.
///
/// A recording belongs to one sampling task, which alone changes it and
/// closes it with [`Recording::finalize`] when it ends.
#[derive(Debug, Clone, Copy, PartialEq, Eq, Structural)]
pub struct Recording {
    /// When the window began, in milliseconds since the Unix epoch.
    pub start_time: u128,
    /// The boost state that is in force during the window.
    pub enabled: bool,
    /// Lines whose page field holds a non-zero address.
    pub successful_allocations: u128,
    /// Lines whose page field holds zero.
    pub failed_allocations: u128,
    /// Lines without a page field that can be read.
    pub unparsed_allocations: u128,
}

/// A window that has ended: the counters of a recording with the time it was closed.
///
/// The end of a window never lies before its start.
#[derive(Debug, Clone, Copy, PartialEq, Eq)]
pub struct SavedRecording {
    start_time: u128,
    end_time: u128,
    enabled: bool,
    successful_allocations: u128,
    failed_allocations: u128,
    unparsed_allocations: u128,
}

/// What a closed window holds, named as in its file.
#[derive(Debug, Clone, Copy, PartialEq, Eq, Structural)]
pub struct Window {
    pub start: u128,
    pub end: u128,
    pub enabled: bool,
    pub success: u128,
    pub failure: u128,
    pub unparsable: u128,
}

/// A counter after one more event: one higher, or unchanged where it already
/// holds the largest number that fits.
pub open spec fn bumped(counter: u128) -> u128 {
    if counter < u128::MAX {
        (counter + 1) as u128
    } else {
        counter
    }
}

impl Recording {
    /// How many lines the recording has counted.
    pub open spec fn total(self) -> nat {
        (self.successful_allocations + self.failed_allocations + self.unparsed_allocations) as nat
    }

    /// The recording after counting one line with the given outcome.
    pub open spec fn recorded(self, outcome: ParseResult) -> Recording {
        match outcome {
            ParseResult::Successful => Recording {
                successful_allocations: bumped(self.successful_allocations),
                ..self
            },
            ParseResult::Failed => Recording {
                failed_allocations: bumped(self.failed_allocations),
                ..self
            },
            ParseResult::Unparsable => Recording {
                unparsed_allocations: bumped(self.unparsed_allocations),
                ..self
            },
        }
    }

    /// The recording after counting one line for each outcome of `outcomes`, in order.
    pub open spec fn recorded_all(self, outcomes: Seq<ParseResult>) -> Recording
        decreases outcomes.len(),
    {
        if outcomes.len() == 0 {
            self
        } else {
            self.recorded_all(outcomes.drop_last()).recorded(outcomes.last())
        }
    }

    /// The window that closing the recording at `end_time` gives. A clock that
    /// stepped back behind the start is read as not having moved.
    pub open spec fn closed_at(self, end_time: u128) -> Window {
        Window {
            start: self.start_time,
            end: if end_time >= self.start_time {
                end_time
            } else {
                self.start_time
            },
            enabled: self.enabled,
            success: self.successful_allocations,
            failure: self.failed_allocations,
            unparsable: self.unparsed_allocations,
        }
    }

    /// The recording that begins at `start_time` under the given boost state,
    /// with nothing counted.
    pub open spec fn new_spec(start_time: u128, enabled: bool) -> Recording {
        Recording {
            start_time,
            enabled,
            successful_allocations: 0,
            failed_allocations: 0,
            unparsed_allocations: 0,
        }
    }

    /// A recording that begins at `start_time` under the given boost state,
    /// with nothing counted.
    pub fn new(start_time: u128, enabled: bool) -> (recording: Recording)
        ensures
            recording == Recording::new_spec(start_time, enabled),
            recording.total() == 0,
    {
        Recording {
            start_time,
            enabled,
            successful_allocations: 0,
            failed_allocations: 0,
            unparsed_allocations: 0,
        }
    }

    /// Counts one line: the counter of its outcome goes up by one and nothing
    /// else changes. A counter that holds the largest number that fits stays.
    pub fn record(&mut self, outcome: ParseResult)
        ensures
            *final(self) == old(self).recorded(outcome),
            final(self).start_time == old(self).start_time,
            final(self).enabled == old(self).enabled,
            final(self).successful_allocations >= old(self).successful_allocations,
            final(self).failed_allocations >= old(self).failed_allocations,
            final(self).unparsed_allocations >= old(self).unparsed_allocations,
            old(self).total() < u128::MAX ==> final(self).total() == old(self).total() + 1,
    {
        match outcome {
            ParseResult::Successful => {
                self.successful_allocations = self.successful_allocations.saturating_add(1);
            },
            ParseResult::Failed => {
                self.failed_allocations = self.failed_allocations.saturating_add(1);
            },
            ParseResult::Unparsable => {
                self.unparsed_allocations = self.unparsed_allocations.saturating_add(1);
            },
        }
    }

    /// Closes the window at `end_time`, in milliseconds since the Unix epoch.
    ///
    /// The counters are kept as they are. The end is `end_time`, or the start
    /// where the clock reads earlier than that.
    pub fn finalize(&self, end_time: u128) -> (saved: SavedRecording)
        ensures
            saved@ == self.closed_at(end_time),
            saved@.start <= saved@.end,
    {
        SavedRecording {
            start_time: self.start_time,
            end_time: if end_time >= self.start_time {
                end_time
            } else {
                self.start_time
            },
            enabled: self.enabled,
            successful_allocations: self.successful_allocations,
            failed_allocations: self.failed_allocations,
            unparsed_allocations: self.unparsed_allocations,
        }
    }
}

/// Counting keeps every line: a fresh recording that has counted one line for
/// each of `outcomes` holds counters that add up to their number, as long as
/// that number fits in a counter.
pub proof fn lemma_counters_add_up(start_time: u128, enabled: bool, outcomes: Seq<ParseResult>)
    requires
        outcomes.len() <= u128::MAX,
    ensures
        Recording::new_spec(start_time, enabled).recorded_all(outcomes).total() == outcomes.len(),
    decreases outcomes.len(),
{
    if outcomes.len() > 0 {
        lemma_counters_add_up(start_time, enabled, outcomes.drop_last());
    }
}

impl View for SavedRecording {
    type V = Window;

    closed spec fn view(&self) -> Window {
        Window {
            start: self.start_time,
            end: self.end_time,
            enabled: self.enabled,
            success: self.successful_allocations,
            failure: self.failed_allocations,
            unparsable: self.unparsed_allocations,
        }
    }
}

impl SavedRecording {
    #[verifier::type_invariant]
    spec fn ordered(self) -> bool {
        self.start_time <= self.end_time
    }

    /// The closed window that holds `w`, where its end does not lie before its start.
    pub fn from_window(w: Window) -> (saved: Option<SavedRecording>)
        ensures
            w.start <= w.end ==> saved is Some && saved->0@ == w,
            w.start > w.end ==> saved is None,
    {
        if w.start <= w.end {
            Some(
                SavedRecording {
                    start_time: w.start,
                    end_time: w.end,
                    enabled: w.enabled,
                    successful_allocations: w.success,
                    failed_allocations: w.failure,
                    unparsed_allocations: w.unparsable,
                },
            )
        } else {
            None
        }
    }

    /// When the window began, in milliseconds since the Unix epoch.
    pub fn start_time(&self) -> (t: u128)
        ensures
            t == self@.start,
            t <= self@.end,
    {
        proof {
            use_type_invariant(self);
        }
        self.start_time
    }

    /// When the window ended, in milliseconds since the Unix epoch.
    pub fn end_time(&self) -> (t: u128)
        ensures
            t == self@.end,
            t >= self@.start,
    {
        proof {
            use_type_invariant(self);
        }
        self.end_time
    }

    /// The boost state that was in force during the window.
    pub fn enabled(&self) -> (b: bool)
        ensures
            b == self@.enabled,
    {
        self.enabled
    }

    /// Lines whose page field held a non-zero address.
    pub fn successful_allocations(&self) -> (n: u128)
        ensures
            n == self@.success,
    {
        self.successful_allocations
    }

    /// Lines whose page field held zero.
    pub fn failed_allocations(&self) -> (n: u128)
        ensures
            n == self@.failure,
    {
        self.failed_allocations
    }

    /// Lines without a page field that could be read.
    pub fn unparsed_allocations(&self) -> (n: u128)
        ensures
            n == self@.unparsable,
    {
        self.unparsed_allocations
    }
}

} // verus!
