//! The sampling task: what one reader of the trace does, step by step.
//!
//! The task itself neither reads nor writes. Its owner opens the trace, reads
//! lines, looks at the run flag and at the clock, and reports each of these as
//! an event; the task answers with what is to be done next. A task that got
//! as far as running hands out its recording for saving exactly once.

use crate::classify::{field_outcome, group_span, parse_line, PAGE_GROUP};
use crate::recording::{Recording, SavedRecording, Window};
use regex::Regex;
use vstd::prelude::*;
use vstd::utf8::encode_utf8;

verus! {

/// Where a sampling task stands.
#[derive(Debug, Clone, Copy, PartialEq, Eq, Structural)]
pub enum TaskPhase {
    /// The trace is not open yet.
    Starting,
    /// Lines are read and counted.
    Running,
    /// No more lines are read; the recording waits for the time of its end.
    Stopping,
    /// The recording was handed out, or the trace could not be opened.
    Finalized,
}

/// What the owner of a task reports to it.
#[derive(Debug, Clone, PartialEq, Eq)]
pub enum TaskEvent {
    /// The trace was opened at `now`, in milliseconds since the Unix epoch.
    Opened { now: u128 },
    /// The trace could not be opened.
    OpenFailed,
    /// A line was read.
    Line { text: String },
    /// Reading a line failed.
    ReadFailed,
    /// The clock reads `now`, in milliseconds since the Unix epoch.
    Clock { now: u128 },
}

/// What a task asks its owner to do next.
#[derive(Debug, Clone, Copy, PartialEq, Eq)]
pub enum TaskAction {
    /// Read the next line of the trace and report it.
    ReadLine,
    /// Read the clock and report it.
    ReadClock,
    /// Write the closed window to its file; the task has ended.
    Persist { saved: SavedRecording },
    /// Give up: without the trace there is nothing to sample.
    Abort,
}

/// What a task asks for, with the window that is to be saved as plain data.
pub enum TaskRequest {
    /// Read the next line of the trace.
    ReadLine,
    /// Read the clock.
    ReadClock,
    /// Write `window` to its file.
    Persist { window: Window },
    /// Give up.
    Abort,
}

impl View for TaskAction {
    type V = TaskRequest;

    open spec fn view(&self) -> TaskRequest {
        match *self {
            TaskAction::ReadLine => TaskRequest::ReadLine,
            TaskAction::ReadClock => TaskRequest::ReadClock,
            TaskAction::Persist { saved } => TaskRequest::Persist { window: saved@ },
            TaskAction::Abort => TaskRequest::Abort,
        }
    }
}

/// What an answer of a task asks for, if anything.
pub open spec fn requested(action: Option<TaskAction>) -> Option<TaskRequest> {
    match action {
        Some(a) => Some(a@),
        None => None,
    }
}

/// One reader of the trace with the recording it fills.
pub struct SamplingTask {
    /// Where the task stands.
    pub phase: TaskPhase,
    /// The counters of the window; they count from the moment the trace is open.
    pub recording: Recording,
    /// The pattern that locates the page field of a line.
    pub pattern: Regex,
}

impl SamplingTask {
    /// The task after the run flag was looked at: it goes on reading while the
    /// flag is set, and stops when it is cleared.
    pub open spec fn resumed(self, keep_running: bool) -> (SamplingTask, Option<TaskRequest>) {
        if keep_running {
            (SamplingTask { phase: TaskPhase::Running, ..self }, Some(TaskRequest::ReadLine))
        } else {
            (SamplingTask { phase: TaskPhase::Stopping, ..self }, Some(TaskRequest::ReadClock))
        }
    }

    /// The task after `event`, with what it asks for. `keep_running` is the
    /// run flag as it stood when the event was reported. An event that the
    /// phase does not wait for changes nothing and asks for nothing.
    pub open spec fn next(self, event: TaskEvent, keep_running: bool) -> (
        SamplingTask,
        Option<TaskRequest>,
    ) {
        match (self.phase, event) {
            (TaskPhase::Starting, TaskEvent::Opened { now }) => (SamplingTask {
                recording: Recording::new_spec(now, self.recording.enabled),
                ..self
            }).resumed(keep_running),
            (TaskPhase::Starting, TaskEvent::OpenFailed) => (
                SamplingTask { phase: TaskPhase::Finalized, ..self },
                Some(TaskRequest::Abort),
            ),
            (TaskPhase::Running, TaskEvent::Line { text }) => (SamplingTask {
                recording: self.recording.recorded(
                    field_outcome(encode_utf8(text@), group_span(self.pattern, text@, PAGE_GROUP)),
                ),
                ..self
            }).resumed(keep_running),
            (TaskPhase::Running, TaskEvent::ReadFailed) => (
                SamplingTask { phase: TaskPhase::Stopping, ..self },
                Some(TaskRequest::ReadClock),
            ),
            (TaskPhase::Stopping, TaskEvent::Clock { now }) => (
                SamplingTask { phase: TaskPhase::Finalized, ..self },
                Some(TaskRequest::Persist { window: self.recording.closed_at(now) }),
            ),
            _ => (self, None),
        }
    }

    /// How many times the task asks for its recording to be saved while the
    /// events of `inputs` are reported to it in order, each with the run flag
    /// of its moment.
    pub open spec fn persist_requests(self, inputs: Seq<(TaskEvent, bool)>) -> nat
        decreases inputs.len(),
    {
        if inputs.len() == 0 {
            0
        } else {
            let (after, request) = self.next(inputs[0].0, inputs[0].1);
            let here: nat = if request matches Some(TaskRequest::Persist { .. }) {
                1
            } else {
                0
            };
            here + after.persist_requests(inputs.skip(1))
        }
    }

    /// A task that waits for the trace to be opened, to sample under the given
    /// boost state with the given pattern.
    pub fn new(enabled: bool, pattern: Regex) -> (task: SamplingTask)
        ensures
            task.phase == TaskPhase::Starting,
            task.recording == Recording::new_spec(0, enabled),
            task.pattern == pattern,
    {
        SamplingTask { phase: TaskPhase::Starting, recording: Recording::new(0, enabled), pattern }
    }

    /// Goes on after the run flag was looked at.
    fn resume(&mut self, keep_running: bool) -> (action: TaskAction)
        ensures
            (*final(self), Some(action@)) == old(self).resumed(keep_running),
    {
        if keep_running {
            self.phase = TaskPhase::Running;
            TaskAction::ReadLine
        } else {
            self.phase = TaskPhase::Stopping;
            TaskAction::ReadClock
        }
    }

    /// Takes one event and says what is to be done next.
    ///
    /// `keep_running` is the run flag as the owner saw it after the event and
    /// before this call. `None` means that the event was not waited for in
    /// this phase: nothing changed and nothing is to be done for it.
    pub fn step(&mut self, event: TaskEvent, keep_running: bool) -> (action: Option<TaskAction>)
        ensures
            (*final(self), requested(action)) == old(self).next(event, keep_running),
            final(self).pattern == old(self).pattern,
            final(self).recording.enabled == old(self).recording.enabled,
            old(self).phase == TaskPhase::Finalized ==> action is None && *final(self) == *old(self),
            old(self).phase != TaskPhase::Starting ==> {
                &&& final(self).recording.start_time == old(self).recording.start_time
                &&& final(self).recording.successful_allocations >= old(
                    self,
                ).recording.successful_allocations
                &&& final(self).recording.failed_allocations >= old(self).recording.failed_allocations
                &&& final(self).recording.unparsed_allocations >= old(
                    self,
                ).recording.unparsed_allocations
            },
            action matches Some(TaskAction::Persist { saved }) ==> {
                &&& old(self).phase == TaskPhase::Stopping
                &&& final(self).phase == TaskPhase::Finalized
                &&& saved@.start == old(self).recording.start_time
                &&& saved@.start <= saved@.end
            },
    {
        match self.phase {
            TaskPhase::Starting => match event {
                TaskEvent::Opened { now } => {
                    self.recording = Recording::new(now, self.recording.enabled);
                    Some(self.resume(keep_running))
                },
                TaskEvent::OpenFailed => {
                    self.phase = TaskPhase::Finalized;
                    Some(TaskAction::Abort)
                },
                _ => None,
            },
            TaskPhase::Running => match event {
                TaskEvent::Line { text } => {
                    let outcome = parse_line(&text, &self.pattern);
                    self.recording.record(outcome);
                    Some(self.resume(keep_running))
                },
                TaskEvent::ReadFailed => {
                    self.phase = TaskPhase::Stopping;
                    Some(TaskAction::ReadClock)
                },
                _ => None,
            },
            TaskPhase::Stopping => match event {
                TaskEvent::Clock { now } => {
                    self.phase = TaskPhase::Finalized;
                    Some(TaskAction::Persist { saved: self.recording.finalize(now) })
                },
                _ => None,
            },
            TaskPhase::Finalized => None,
        }
    }
}

/// A task asks at most once for its recording to be saved, whatever is
/// reported to it and in whatever order; a task that has ended never asks.
pub proof fn lemma_persists_at_most_once(task: SamplingTask, inputs: Seq<(TaskEvent, bool)>)
    ensures
        task.persist_requests(inputs) <= 1,
        task.phase == TaskPhase::Finalized ==> task.persist_requests(inputs) == 0,
    decreases inputs.len(),
{
    if inputs.len() > 0 {
        let (after, request) = task.next(inputs[0].0, inputs[0].1);
        lemma_persists_at_most_once(after, inputs.skip(1));
    }
}

} // verus!
