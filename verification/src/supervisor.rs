//! The supervisor: the control loop that rotates recording windows.
//!
//! The supervisor neither sleeps nor starts anything itself. It hands its
//! owner one command at a time and takes the outcome of that command as the
//! next event. Windows are rotated by switching the boost, stopping the task
//! of the window that ended, waiting for it, and only then starting the next.

use vstd::prelude::*;

verus! {

/// How many nanoseconds a second has.
pub const NANOS_PER_SEC: u128 = 1_000_000_000;

/// The boost state of the first window.
pub const INITIAL_BOOST: bool = true;

/// Where the supervisor stands, seen from outside.
#[derive(Debug, Clone, Copy, PartialEq, Eq, Structural)]
pub enum SupervisorPhase {
    /// Windows are recorded and rotated.
    Running,
    /// Shutdown was requested; the last task is being stopped.
    ShuttingDown,
    /// The last task has ended.
    Terminated,
}

/// The command whose outcome the supervisor waits for.
#[derive(Debug, Clone, Copy, PartialEq, Eq, Structural)]
pub enum Stage {
    /// The boost is being set for the first window.
    InitialBoost,
    /// The first task is being started.
    InitialStart,
    /// The owner sleeps for one poll interval.
    Sleeping,
    /// A window ended: the boost is being switched.
    RotateBoost,
    /// A window ended: the run flag of its task is being cleared.
    RotateStop,
    /// A window ended: its task is being waited for.
    RotateJoin,
    /// A window ended and its task is gone: the next task is being started.
    RotateStart,
    /// Shutdown: the run flag of the task is being cleared.
    FinalStop,
    /// Shutdown: the task is being waited for.
    FinalJoin,
    /// Nothing is left to do.
    Terminated,
}

/// What the owner is to do next.
#[derive(Debug, Clone, Copy, PartialEq, Eq, Structural)]
pub enum Command {
    /// Run the boost control with the given state and report `BoostSet`.
    SetBoost { enabled: bool },
    /// Set the run flag, start a sampling task under the given boost state,
    /// and report `TaskStarted`.
    StartTask { enabled: bool },
    /// Sleep for so many seconds and report `Woke`.
    Sleep { secs: u64 },
    /// Clear the run flag of the task and report `TaskStopped`.
    StopTask,
    /// Wait until the task has ended and report `TaskJoined`.
    JoinTask,
    /// Leave: the last recording is saved.
    Exit,
}

/// The outcome of a command. Times are nanoseconds on a clock that does not
/// run backwards.
#[derive(Debug, Clone, Copy, PartialEq, Eq, Structural)]
pub enum SupervisorEvent {
    /// The boost control was run; `ok` tells whether it could be started and
    /// reported success.
    BoostSet { ok: bool },
    /// The task runs; the clock read `now` after it was started.
    TaskStarted { now: u128 },
    /// The sleep is over; the clock read `now` after it.
    Woke { now: u128 },
    /// The run flag of the task is cleared.
    TaskStopped,
    /// The task has ended and its recording is saved.
    TaskJoined,
}

/// The state of the control loop.
#[derive(Debug, Clone, Copy, PartialEq, Eq, Structural)]
pub struct Supervisor {
    /// How long the owner sleeps between two looks at the clock, in seconds.
    pub poll_secs: u64,
    /// How long a window lasts at least, in seconds.
    pub window_secs: u64,
    /// The command whose outcome is waited for.
    pub stage: Stage,
    /// The boost state of the current window.
    pub boost_enabled: bool,
    /// When the current window began.
    pub window_start: u128,
}

impl Supervisor {
    /// The supervisor before anything was done.
    pub open spec fn initial(poll_secs: u64, window_secs: u64) -> Supervisor {
        Supervisor {
            poll_secs,
            window_secs,
            stage: Stage::InitialBoost,
            boost_enabled: INITIAL_BOOST,
            window_start: 0,
        }
    }

    /// Where the supervisor stands, seen from outside.
    pub open spec fn phase(self) -> SupervisorPhase {
        match self.stage {
            Stage::Terminated => SupervisorPhase::Terminated,
            Stage::FinalStop | Stage::FinalJoin => SupervisorPhase::ShuttingDown,
            _ => SupervisorPhase::Running,
        }
    }

    /// How many tasks were asked for and have not been waited for to their end.
    pub open spec fn tasks_alive(self) -> int {
        match self.stage {
            Stage::InitialBoost | Stage::Terminated => 0,
            _ => 1,
        }
    }

    /// Whether the window is over at `now`: more than its length has passed
    /// since it began.
    pub open spec fn window_over(self, now: u128) -> bool {
        now - self.window_start > self.window_secs * NANOS_PER_SEC
    }

    /// The supervisor at the top of its loop, where the shutdown request is
    /// looked at: it sleeps once more, or begins to shut down.
    pub open spec fn resumed(self, shutdown: bool) -> (Supervisor, Option<Command>) {
        if shutdown {
            (Supervisor { stage: Stage::FinalStop, ..self }, Some(Command::StopTask))
        } else {
            (
                Supervisor { stage: Stage::Sleeping, ..self },
                Some(Command::Sleep { secs: self.poll_secs }),
            )
        }
    }

    /// The supervisor after `event`, with the next command. `shutdown` tells
    /// whether shutdown had been requested when the event was reported. An
    /// event that is not the outcome of the last command changes nothing and
    /// gives no command.
    pub open spec fn next(self, event: SupervisorEvent, shutdown: bool) -> (
        Supervisor,
        Option<Command>,
    ) {
        match (self.stage, event) {
            (Stage::InitialBoost, SupervisorEvent::BoostSet { .. }) => (
                Supervisor { stage: Stage::InitialStart, ..self },
                Some(Command::StartTask { enabled: self.boost_enabled }),
            ),
            (Stage::InitialStart, SupervisorEvent::TaskStarted { now }) => (Supervisor {
                window_start: now,
                ..self
            }).resumed(shutdown),
            (Stage::Sleeping, SupervisorEvent::Woke { now }) => if self.window_over(now) {
                (
                    Supervisor {
                        stage: Stage::RotateBoost,
                        boost_enabled: !self.boost_enabled,
                        window_start: now,
                        ..self
                    },
                    Some(Command::SetBoost { enabled: !self.boost_enabled }),
                )
            } else {
                self.resumed(shutdown)
            },
            (Stage::RotateBoost, SupervisorEvent::BoostSet { .. }) => (
                Supervisor { stage: Stage::RotateStop, ..self },
                Some(Command::StopTask),
            ),
            (Stage::RotateStop, SupervisorEvent::TaskStopped) => (
                Supervisor { stage: Stage::RotateJoin, ..self },
                Some(Command::JoinTask),
            ),
            (Stage::RotateJoin, SupervisorEvent::TaskJoined) => (
                Supervisor { stage: Stage::RotateStart, ..self },
                Some(Command::StartTask { enabled: self.boost_enabled }),
            ),
            (Stage::RotateStart, SupervisorEvent::TaskStarted { .. }) => self.resumed(shutdown),
            (Stage::FinalStop, SupervisorEvent::TaskStopped) => (
                Supervisor { stage: Stage::FinalJoin, ..self },
                Some(Command::JoinTask),
            ),
            (Stage::FinalJoin, SupervisorEvent::TaskJoined) => (
                Supervisor { stage: Stage::Terminated, ..self },
                Some(Command::Exit),
            ),
            _ => (self, None),
        }
    }

    /// Whether at no moment more than one task is alive while the events of
    /// `inputs` are reported in order, each with the shutdown request of its
    /// moment, given that `alive` tasks are alive before. A task is alive from
    /// the command that starts it until the event that tells of its end has
    /// been taken; within one step the end comes before the start.
    pub open spec fn one_task_at_a_time(self, alive: int, inputs: Seq<(SupervisorEvent, bool)>) -> bool
        decreases inputs.len(),
    {
        if inputs.len() == 0 {
            0 <= alive <= 1
        } else {
            let (event, shutdown) = inputs[0];
            let (after, command) = self.next(event, shutdown);
            let ended: int = if command is Some && event is TaskJoined {
                1
            } else {
                0
            };
            let started: int = if command matches Some(Command::StartTask { .. }) {
                1
            } else {
                0
            };
            &&& 0 <= alive - ended
            &&& alive <= 1
            &&& alive - ended + started <= 1
            &&& after.one_task_at_a_time(alive - ended + started, inputs.skip(1))
        }
    }

    /// A supervisor for windows of at least `window_secs` seconds that looks
    /// at the clock every `poll_secs` seconds, with its first command: to set
    /// the boost for the first window.
    pub fn new(poll_secs: u64, window_secs: u64) -> (begun: (Supervisor, Command))
        ensures
            begun.0 == Supervisor::initial(poll_secs, window_secs),
            begun.1 == (Command::SetBoost { enabled: INITIAL_BOOST }),
    {
        (
            Supervisor {
                poll_secs,
                window_secs,
                stage: Stage::InitialBoost,
                boost_enabled: INITIAL_BOOST,
                window_start: 0,
            },
            Command::SetBoost { enabled: INITIAL_BOOST },
        )
    }

    /// Where the supervisor stands, seen from outside.
    pub fn current_phase(&self) -> (phase: SupervisorPhase)
        ensures
            phase == self.phase(),
    {
        match self.stage {
            Stage::Terminated => SupervisorPhase::Terminated,
            Stage::FinalStop | Stage::FinalJoin => SupervisorPhase::ShuttingDown,
            _ => SupervisorPhase::Running,
        }
    }

    /// Whether the window is over at `now`.
    pub fn is_window_over(&self, now: u128) -> (over: bool)
        ensures
            over == self.window_over(now),
    {
        let length: u128 = self.window_secs as u128 * NANOS_PER_SEC;
        now > self.window_start && now - self.window_start > length
    }

    /// Goes on at the top of the loop.
    fn resume(&mut self, shutdown: bool) -> (command: Command)
        ensures
            (*final(self), Some(command)) == old(self).resumed(shutdown),
    {
        if shutdown {
            self.stage = Stage::FinalStop;
            Command::StopTask
        } else {
            self.stage = Stage::Sleeping;
            Command::Sleep { secs: self.poll_secs }
        }
    }

    /// Takes the outcome of the last command and gives the next command.
    ///
    /// `shutdown` tells whether shutdown has been requested. `None` means
    /// that the event is not the outcome that is waited for: nothing changed
    /// and nothing is to be done for it. Whether the boost control succeeded
    /// makes no difference to what follows.
    pub fn step(&mut self, event: SupervisorEvent, shutdown: bool) -> (command: Option<Command>)
        ensures
            (*final(self), command) == old(self).next(event, shutdown),
            final(self).poll_secs == old(self).poll_secs,
            final(self).window_secs == old(self).window_secs,
            command matches Some(Command::StartTask { enabled }) ==> {
                &&& enabled == final(self).boost_enabled
                &&& old(self).stage == Stage::InitialBoost || (old(self).stage == Stage::RotateJoin
                    && event == SupervisorEvent::TaskJoined)
            },
            command matches Some(Command::SetBoost { enabled }) ==> {
                &&& enabled == final(self).boost_enabled
                &&& enabled != old(self).boost_enabled
            },
            command is None ==> *final(self) == *old(self),
            final(self).tasks_alive() <= 1,
            old(self).stage == Stage::Terminated ==> command is None,
    {
        match (self.stage, event) {
            (Stage::InitialBoost, SupervisorEvent::BoostSet { .. }) => {
                self.stage = Stage::InitialStart;
                Some(Command::StartTask { enabled: self.boost_enabled })
            },
            (Stage::InitialStart, SupervisorEvent::TaskStarted { now }) => {
                self.window_start = now;
                Some(self.resume(shutdown))
            },
            (Stage::Sleeping, SupervisorEvent::Woke { now }) => {
                if self.is_window_over(now) {
                    self.stage = Stage::RotateBoost;
                    self.boost_enabled = !self.boost_enabled;
                    self.window_start = now;
                    Some(Command::SetBoost { enabled: self.boost_enabled })
                } else {
                    Some(self.resume(shutdown))
                }
            },
            (Stage::RotateBoost, SupervisorEvent::BoostSet { .. }) => {
                self.stage = Stage::RotateStop;
                Some(Command::StopTask)
            },
            (Stage::RotateStop, SupervisorEvent::TaskStopped) => {
                self.stage = Stage::RotateJoin;
                Some(Command::JoinTask)
            },
            (Stage::RotateJoin, SupervisorEvent::TaskJoined) => {
                self.stage = Stage::RotateStart;
                Some(Command::StartTask { enabled: self.boost_enabled })
            },
            (Stage::RotateStart, SupervisorEvent::TaskStarted { .. }) => Some(self.resume(shutdown)),
            (Stage::FinalStop, SupervisorEvent::TaskStopped) => {
                self.stage = Stage::FinalJoin;
                Some(Command::JoinTask)
            },
            (Stage::FinalJoin, SupervisorEvent::TaskJoined) => {
                self.stage = Stage::Terminated;
                Some(Command::Exit)
            },
            _ => None,
        }
    }
}

/// Whether the boost control succeeded makes no difference to what the
/// supervisor does next: sampling does not depend on it.
pub proof fn lemma_boost_failure_is_no_obstacle(supervisor: Supervisor, shutdown: bool)
    ensures
        supervisor.next(SupervisorEvent::BoostSet { ok: false }, shutdown) == supervisor.next(
            SupervisorEvent::BoostSet { ok: true },
            shutdown,
        ),
{
}

/// No two sampling tasks are alive at once: whatever is reported to a
/// supervisor and in whatever order, it asks for a task to be started only
/// when none is alive, having taken the end of the one before.
pub proof fn lemma_one_task_at_a_time(supervisor: Supervisor, inputs: Seq<(SupervisorEvent, bool)>)
    ensures
        supervisor.one_task_at_a_time(supervisor.tasks_alive(), inputs),
    decreases inputs.len(),
{
    if inputs.len() > 0 {
        let (after, command) = supervisor.next(inputs[0].0, inputs[0].1);
        lemma_one_task_at_a_time(after, inputs.skip(1));
    }
}

} // verus!
