use boost_sampler::boost::{boost_argument, boost_result, BoostError, BOOST_PROGRAM};
use boost_sampler::clock::{epoch_millis, now_ms, MILLIS_PER_SEC, NANOS_PER_MILLI};
use boost_sampler::config::{
    Config, DEFAULT_DST_DIR_PATH, DEFAULT_MAIN_LOOP_SLEEP_SECS, DEFAULT_RECORDING_DURATION_SECS,
    TRACE_PIPE_PATH,
};
use boost_sampler::supervisor::{
    Command, Stage, Supervisor, SupervisorEvent, SupervisorPhase, NANOS_PER_SEC,
};
use std::time::{SystemTime, UNIX_EPOCH};

const SEC: u128 = 1_000_000_000;

/// Answers each command as an owner would, with a clock that the test moves,
/// and keeps what was asked for.
struct World {
    supervisor: Supervisor,
    pending: Option<Command>,
    now: u128,
    alive: u32,
    log: Vec<Command>,
}

impl World {
    fn new(poll_secs: u64, window_secs: u64) -> World {
        let (supervisor, first) = Supervisor::new(poll_secs, window_secs);
        World { supervisor, pending: Some(first), now: 0, alive: 0, log: vec![first] }
    }

    /// Carries out the pending command and reports its outcome.
    fn turn(&mut self, shutdown: bool) {
        let command = self.pending.take().expect("a command is pending");
        let event = match command {
            Command::SetBoost { .. } => SupervisorEvent::BoostSet { ok: true },
            Command::StartTask { .. } => {
                assert_eq!(self.alive, 0, "a task is started while another is alive");
                self.alive += 1;
                SupervisorEvent::TaskStarted { now: self.now }
            }
            Command::Sleep { secs } => {
                self.now += secs as u128 * SEC;
                SupervisorEvent::Woke { now: self.now }
            }
            Command::StopTask => SupervisorEvent::TaskStopped,
            Command::JoinTask => {
                assert_eq!(self.alive, 1);
                self.alive -= 1;
                SupervisorEvent::TaskJoined
            }
            Command::Exit => panic!("nothing follows Exit"),
        };
        self.pending = self.supervisor.step(event, shutdown);
        if let Some(next) = self.pending {
            self.log.push(next);
        }
    }
}

#[test]
fn supervisor_begins_with_the_boost_on() {
    let (s, first) = Supervisor::new(1, 20);
    assert_eq!(first, Command::SetBoost { enabled: true });
    assert_eq!(s.stage, Stage::InitialBoost);
    assert!(s.boost_enabled);
    assert_eq!((s.poll_secs, s.window_secs), (1, 20));
    assert_eq!(s.current_phase(), SupervisorPhase::Running);
}

#[test]
fn supervisor_starts_the_first_task_then_sleeps() {
    let (mut s, _) = Supervisor::new(3, 20);
    assert_eq!(
        s.step(SupervisorEvent::BoostSet { ok: true }, false),
        Some(Command::StartTask { enabled: true })
    );
    assert_eq!(
        s.step(SupervisorEvent::TaskStarted { now: 77 }, false),
        Some(Command::Sleep { secs: 3 })
    );
    assert_eq!(s.window_start, 77);
    assert_eq!(s.stage, Stage::Sleeping);
}

#[test]
fn failed_boost_does_not_stop_the_supervisor() {
    let (mut s, _) = Supervisor::new(1, 20);
    assert_eq!(
        s.step(SupervisorEvent::BoostSet { ok: false }, false),
        Some(Command::StartTask { enabled: true })
    );
    s.step(SupervisorEvent::TaskStarted { now: 0 }, false);
    assert_eq!(
        s.step(SupervisorEvent::Woke { now: 21 * SEC }, false),
        Some(Command::SetBoost { enabled: false })
    );
    assert_eq!(s.step(SupervisorEvent::BoostSet { ok: false }, false), Some(Command::StopTask));
}

#[test]
fn window_of_thirty_seconds_is_rotated_once() {
    let mut w = World::new(1, 30);
    // until the clock reads 31 s: the boost, the start, and 31 sleeps; the
    // last of them is answered with the flip
    while w.now < 31 * SEC {
        w.turn(false);
    }
    assert_eq!(w.pending, Some(Command::SetBoost { enabled: false }));
    // the rotation: boost, stop, join and start are carried out
    for _ in 0..4 {
        w.turn(false);
    }
    let flips = w.log.iter().filter(|c| matches!(c, Command::SetBoost { .. })).count();
    let starts = w.log.iter().filter(|c| matches!(c, Command::StartTask { .. })).count();
    let joins = w.log.iter().filter(|c| matches!(c, Command::JoinTask)).count();
    assert_eq!(flips, 2, "the first setting and one flip");
    assert_eq!(starts, 2, "the first start and one restart");
    assert_eq!(joins, 1, "one window was closed");
    let tail: Vec<Command> = w.log[w.log.len() - 5..].to_vec();
    assert_eq!(
        tail,
        vec![
            Command::SetBoost { enabled: false },
            Command::StopTask,
            Command::JoinTask,
            Command::StartTask { enabled: false },
            Command::Sleep { secs: 1 },
        ]
    );
    assert_eq!(w.supervisor.window_start, 31 * SEC);
    assert!(!w.supervisor.boost_enabled);
}

#[test]
fn window_is_not_rotated_at_exactly_its_length() {
    let (mut s, _) = Supervisor::new(1, 30);
    s.step(SupervisorEvent::BoostSet { ok: true }, false);
    s.step(SupervisorEvent::TaskStarted { now: 5 * SEC }, false);
    assert!(!s.is_window_over(35 * SEC));
    assert!(s.is_window_over(35 * SEC + 1));
    assert!(!s.is_window_over(0));
    assert_eq!(
        s.step(SupervisorEvent::Woke { now: 35 * SEC }, false),
        Some(Command::Sleep { secs: 1 })
    );
    assert_eq!(
        s.step(SupervisorEvent::Woke { now: 35 * SEC + 1 }, false),
        Some(Command::SetBoost { enabled: false })
    );
}

#[test]
fn boost_alternates_from_window_to_window() {
    let mut w = World::new(5, 20);
    while w.now < 200 * SEC {
        w.turn(false);
    }
    let boosts: Vec<bool> = w
        .log
        .iter()
        .filter_map(|c| match c {
            Command::SetBoost { enabled } => Some(*enabled),
            _ => None,
        })
        .collect();
    assert!(boosts.len() >= 5);
    for (i, enabled) in boosts.iter().enumerate() {
        assert_eq!(*enabled, i % 2 == 0);
    }
    let starts: Vec<bool> = w
        .log
        .iter()
        .filter_map(|c| match c {
            Command::StartTask { enabled } => Some(*enabled),
            _ => None,
        })
        .collect();
    assert_eq!(starts, boosts[..starts.len()].to_vec());
}

#[test]
fn shutdown_stops_and_joins_the_task_then_leaves() {
    let (mut s, _) = Supervisor::new(1, 20);
    s.step(SupervisorEvent::BoostSet { ok: true }, false);
    s.step(SupervisorEvent::TaskStarted { now: 0 }, false);
    assert_eq!(s.step(SupervisorEvent::Woke { now: SEC }, true), Some(Command::StopTask));
    assert_eq!(s.current_phase(), SupervisorPhase::ShuttingDown);
    assert_eq!(s.step(SupervisorEvent::TaskStopped, true), Some(Command::JoinTask));
    assert_eq!(s.current_phase(), SupervisorPhase::ShuttingDown);
    assert_eq!(s.step(SupervisorEvent::TaskJoined, true), Some(Command::Exit));
    assert_eq!(s.current_phase(), SupervisorPhase::Terminated);
    assert_eq!(s.step(SupervisorEvent::Woke { now: 2 * SEC }, true), None);
    assert_eq!(s.step(SupervisorEvent::TaskJoined, false), None);
}

#[test]
fn shutdown_before_the_first_sleep() {
    let (mut s, _) = Supervisor::new(1, 20);
    s.step(SupervisorEvent::BoostSet { ok: true }, true);
    assert_eq!(s.step(SupervisorEvent::TaskStarted { now: 0 }, true), Some(Command::StopTask));
    assert_eq!(s.step(SupervisorEvent::TaskStopped, true), Some(Command::JoinTask));
    assert_eq!(s.step(SupervisorEvent::TaskJoined, true), Some(Command::Exit));
}

#[test]
fn rotation_that_is_due_comes_before_shutdown() {
    let mut w = World::new(1, 2);
    for _ in 0..4 {
        w.turn(false);
    }
    assert_eq!(w.now, 2 * SEC);
    // the window is over at 3 s, and shutdown is requested during that sleep
    while w.pending != Some(Command::Exit) {
        w.turn(true);
    }
    let tail: Vec<Command> = w.log[w.log.len() - 7..].to_vec();
    assert_eq!(
        tail,
        vec![
            Command::SetBoost { enabled: false },
            Command::StopTask,
            Command::JoinTask,
            Command::StartTask { enabled: false },
            Command::StopTask,
            Command::JoinTask,
            Command::Exit,
        ]
    );
    assert_eq!(w.alive, 0);
}

#[test]
fn never_two_tasks_at_once() {
    for (poll, window) in [(1u64, 0u64), (1, 1), (1, 3), (2, 3), (7, 20), (30, 20)] {
        let mut w = World::new(poll, window);
        let mut turns = 0;
        while w.pending != Some(Command::Exit) {
            // World::turn fails where a task is started while one is alive
            w.turn(turns > 400);
            turns += 1;
            assert!(w.alive <= 1);
        }
        assert_eq!(w.alive, 0);
        let starts = w.log.iter().filter(|c| matches!(c, Command::StartTask { .. })).count();
        let joins = w.log.iter().filter(|c| matches!(c, Command::JoinTask)).count();
        assert_eq!(starts, joins);
    }
}

#[test]
fn supervisor_ignores_what_it_does_not_wait_for() {
    let (mut s, _) = Supervisor::new(1, 20);
    let before = s;
    assert_eq!(s.step(SupervisorEvent::TaskStarted { now: 5 }, false), None);
    assert_eq!(s.step(SupervisorEvent::Woke { now: 500 * SEC }, false), None);
    assert_eq!(s.step(SupervisorEvent::TaskStopped, true), None);
    assert_eq!(s.step(SupervisorEvent::TaskJoined, true), None);
    assert_eq!(s, before);
    s.step(SupervisorEvent::BoostSet { ok: true }, false);
    s.step(SupervisorEvent::TaskStarted { now: 5 }, false);
    let before = s;
    assert_eq!(s.step(SupervisorEvent::TaskStarted { now: 9 }, false), None);
    assert_eq!(s.step(SupervisorEvent::BoostSet { ok: true }, false), None);
    assert_eq!(s.step(SupervisorEvent::TaskJoined, false), None);
    assert_eq!(s, before);
}

#[test]
fn clock_behind_the_window_start_rotates_nothing() {
    let (mut s, _) = Supervisor::new(1, 0);
    s.step(SupervisorEvent::BoostSet { ok: true }, false);
    s.step(SupervisorEvent::TaskStarted { now: 10 * SEC }, false);
    assert_eq!(s.step(SupervisorEvent::Woke { now: 9 * SEC }, false), Some(Command::Sleep { secs: 1 }));
    assert_eq!(s.step(SupervisorEvent::Woke { now: 10 * SEC }, false), Some(Command::Sleep { secs: 1 }));
    assert_eq!(
        s.step(SupervisorEvent::Woke { now: 10 * SEC + 1 }, false),
        Some(Command::SetBoost { enabled: false })
    );
}

#[test]
fn longest_window_does_not_overflow() {
    let (mut s, _) = Supervisor::new(u64::MAX, u64::MAX);
    s.step(SupervisorEvent::BoostSet { ok: true }, false);
    s.step(SupervisorEvent::TaskStarted { now: 0 }, false);
    assert_eq!(
        s.step(SupervisorEvent::Woke { now: u64::MAX as u128 * SEC }, false),
        Some(Command::Sleep { secs: u64::MAX })
    );
    assert_eq!(
        s.step(SupervisorEvent::Woke { now: u128::MAX }, false),
        Some(Command::SetBoost { enabled: false })
    );
    assert_eq!(NANOS_PER_SEC, SEC);
}

#[test]
fn boost_argument_is_on_or_off() {
    assert_eq!(boost_argument(true), "--on");
    assert_eq!(boost_argument(false), "--off");
    assert_eq!(BOOST_PROGRAM, "eboostctl");
}

#[test]
fn boost_result_reads_the_exit() {
    assert_eq!(boost_result(Some(true)), Ok(()));
    assert_eq!(boost_result(Some(false)), Err(BoostError::Unsuccessful));
    assert_eq!(boost_result(None), Err(BoostError::LaunchFailed));
}

#[test]
fn default_config() {
    let c = Config::default();
    assert_eq!(c.dst_dir_path, DEFAULT_DST_DIR_PATH);
    assert_eq!(c.main_loop_sleep_secs, 1);
    assert_eq!(c.recording_duration_secs, 20);
    assert_eq!(DEFAULT_MAIN_LOOP_SLEEP_SECS, 1);
    assert_eq!(DEFAULT_RECORDING_DURATION_SECS, 20);
    assert_eq!(TRACE_PIPE_PATH, "/sys/kernel/debug/tracing/trace_pipe");
}

#[test]
fn now_ms_reads_a_time_after_the_epoch() {
    let first = now_ms().expect("the clock is set after the epoch");
    // 2020-01-01 in milliseconds
    assert!(first > 1_577_836_800_000);
    let second = now_ms().unwrap();
    assert!(second + 60_000 > first);
}

#[test]
fn epoch_millis_gives_whole_milliseconds() {
    assert_eq!(epoch_millis(Some((0, 0))), Some(0));
    assert_eq!(epoch_millis(Some((1, 0))), Some(1000));
    assert_eq!(epoch_millis(Some((1, 500_000_000))), Some(1500));
    assert_eq!(epoch_millis(Some((0, 999_999))), Some(0));
    assert_eq!(epoch_millis(Some((0, 1_000_000))), Some(1));
    assert_eq!(epoch_millis(Some((0, 999_999_999))), Some(999));
    assert_eq!(epoch_millis(Some((1_700_000_000, 123_456_789))), Some(1_700_000_000_123));
    assert_eq!(
        epoch_millis(Some((u64::MAX, 999_999_999))),
        Some(18_446_744_073_709_551_615_999)
    );
    assert_eq!(MILLIS_PER_SEC, 1000);
    assert_eq!(NANOS_PER_MILLI, 1_000_000);
}

#[test]
fn epoch_millis_of_a_reading_before_the_epoch() {
    assert_eq!(epoch_millis(None), None);
}

#[test]
fn now_ms_agrees_with_the_clock() {
    let before = SystemTime::now().duration_since(UNIX_EPOCH).unwrap().as_millis();
    let read = now_ms().unwrap();
    let after = SystemTime::now().duration_since(UNIX_EPOCH).unwrap().as_millis();
    // the wall clock may be set while the test runs; a minute is allowed for that
    assert!(read + 60_000 >= before);
    assert!(read <= after + 60_000);
}
