use imk::command::{Command, Directive, Launch, Observation, RunResult, POLL_INTERVAL_MS};

fn strings(items: &[&str]) -> Vec<String> {
    items.iter().map(|s| s.to_string()).collect()
}

fn plain(command: &str) -> Command {
    Command::new(false, false, None, command.to_string(), None)
}

fn timed(timeout_ms: u64, teardown: Option<&str>) -> Command {
    Command::new(false, false, Some(timeout_ms), "sleep 2".to_string(), teardown.map(|t| t.to_string()))
}

/// Drives the supervisor with a child that never ends by itself and is
/// looked at every `step` milliseconds. Returns the directives in order.
fn drive_sleeper(command: &Command, step: u64, after_timeout: Observation) -> Vec<Directive> {
    let mut seen = Vec::new();
    let mut next = command.run();
    let mut clock: u64 = 0;
    let mut pending = Some(after_timeout);
    loop {
        let observation = match &next {
            Directive::Spawn(_) => Observation::Spawned,
            Directive::Wait => panic!("a child with a timeout is not waited for"),
            Directive::Poll { delay_ms } => {
                clock += if *delay_ms == 0 { 0 } else { step };
                Observation::Running { pid: 4242, elapsed_ms: clock }
            }
            Directive::Teardown(_) | Directive::Kill => pending.take().unwrap(),
            Directive::Finish(_) => {
                seen.push(next);
                return seen;
            }
        };
        seen.push(next);
        next = command.wait_timeout(observation);
        assert!(seen.len() < 100);
    }
}

#[test]
fn new_keeps_what_it_is_given() {
    let c = Command::new(true, true, Some(250), "make".to_string(), Some("stop".to_string()));
    assert!(c.wrap_shell());
    assert!(c.once());
    assert_eq!(c.timeout_ms(), Some(250));
    assert_eq!(c.command(), "make");
    assert_eq!(c.teardown(), &Some("stop".to_string()));
}

#[test]
fn new_drops_teardown_without_timeout() {
    let c = Command::new(false, false, None, "make".to_string(), Some("stop".to_string()));
    assert_eq!(c.timeout_ms(), None);
    assert_eq!(c.teardown(), &None);
}

#[test]
fn describe_command_only() {
    assert_eq!(plain("make test").describe(), "command[make test]");
}

#[test]
fn describe_all_parts() {
    let c = Command::new(true, true, Some(1500), "make".to_string(), Some("pkill make".to_string()));
    assert_eq!(
        c.describe(),
        "command[make] teardown[pkill make] timeout_ms[1500] wrap_shell once"
    );
}

#[test]
fn describe_timeout_without_teardown() {
    let c = Command::new(false, true, Some(0), "x".to_string(), None);
    assert_eq!(c.describe(), "command[x] timeout_ms[0] once");
}

#[test]
fn describe_hides_teardown_without_timeout() {
    let c = Command::new(true, false, None, "x".to_string(), Some("y".to_string()));
    assert_eq!(c.describe(), "command[x] wrap_shell");
}

#[test]
fn run_splits_the_command_at_white_space() {
    let first = plain("  cargo   build --release ").run();
    assert_eq!(
        first,
        Directive::Spawn(Launch {
            program: "cargo".to_string(),
            args: strings(&["build", "--release"]),
            env: vec![],
        })
    );
}

#[test]
fn run_of_a_single_word() {
    assert_eq!(
        plain("true").run(),
        Directive::Spawn(Launch { program: "true".to_string(), args: vec![], env: vec![] })
    );
}

#[test]
fn run_keeps_quotes_as_they_are_without_a_shell() {
    let first = plain("echo 'a b'").run();
    assert_eq!(
        first,
        Directive::Spawn(Launch {
            program: "echo".to_string(),
            args: strings(&["'a", "b'"]),
            env: vec![],
        })
    );
}

#[test]
fn run_hands_the_whole_text_to_the_shell() {
    let c = Command::new(true, false, None, "echo 'a  b' | wc".to_string(), None);
    assert_eq!(
        c.run(),
        Directive::Spawn(Launch {
            program: "/bin/sh".to_string(),
            args: strings(&["-c", "echo 'a  b' | wc"]),
            env: vec![],
        })
    );
}

#[test]
fn run_of_an_empty_command_fails_at_once() {
    assert_eq!(
        plain("").run(),
        Directive::Finish(RunResult::SpawnError("the command is empty".to_string()))
    );
    assert_eq!(
        plain(" \t ").run(),
        Directive::Finish(RunResult::SpawnError("the command is empty".to_string()))
    );
}

#[test]
fn run_of_an_empty_command_in_a_shell_is_started() {
    let c = Command::new(true, false, None, "".to_string(), None);
    assert_eq!(
        c.run(),
        Directive::Spawn(Launch {
            program: "/bin/sh".to_string(),
            args: strings(&["-c", ""]),
            env: vec![],
        })
    );
}

#[test]
fn spawned_child_with_timeout_is_looked_at_without_delay() {
    assert_eq!(timed(200, None).wait_timeout(Observation::Spawned), Directive::Poll { delay_ms: 0 });
    assert_eq!(timed(0, Some("t")).wait_timeout(Observation::Spawned), Directive::Poll { delay_ms: 0 });
}

#[test]
fn spawned_child_without_timeout_is_waited_for() {
    assert_eq!(plain("x").wait_timeout(Observation::Spawned), Directive::Wait);
}

#[test]
fn plain_run_from_start_to_exit() {
    let c = plain("true");
    assert!(matches!(c.run(), Directive::Spawn(_)));
    assert_eq!(c.wait_timeout(Observation::Spawned), Directive::Wait);
    assert_eq!(
        c.wait_timeout(Observation::Exited { code: Some(0) }),
        Directive::Finish(RunResult::Exited(0))
    );
}

#[test]
fn spawn_failure_ends_the_run() {
    assert_eq!(
        plain("x").wait_timeout(Observation::SpawnFailed("No such file".to_string())),
        Directive::Finish(RunResult::SpawnError("No such file".to_string()))
    );
}

#[test]
fn exit_code_is_reported() {
    assert_eq!(
        plain("x").wait_timeout(Observation::Exited { code: Some(0) }),
        Directive::Finish(RunResult::Exited(0))
    );
    assert_eq!(
        timed(10, None).wait_timeout(Observation::Exited { code: Some(-3) }),
        Directive::Finish(RunResult::Exited(-3))
    );
}

#[test]
fn child_ended_by_a_signal_counts_as_killed() {
    assert_eq!(
        plain("x").wait_timeout(Observation::Exited { code: None }),
        Directive::Finish(RunResult::Killed)
    );
}

#[test]
fn wait_failure_ends_the_run() {
    assert_eq!(
        plain("x").wait_timeout(Observation::WaitFailed("ECHILD".to_string())),
        Directive::Finish(RunResult::SpawnError("ECHILD".to_string()))
    );
}

#[test]
fn without_timeout_a_running_child_is_waited_for() {
    let c = plain("x");
    assert_eq!(c.wait_timeout(Observation::Running { pid: 1, elapsed_ms: 0 }), Directive::Wait);
    assert_eq!(
        c.wait_timeout(Observation::Running { pid: 1, elapsed_ms: u64::MAX }),
        Directive::Wait
    );
}

#[test]
fn polls_are_100_ms_apart() {
    assert_eq!(POLL_INTERVAL_MS, 100);
    assert_eq!(
        timed(u64::MAX, None).wait_timeout(Observation::Running { pid: 1, elapsed_ms: u64::MAX }),
        Directive::Poll { delay_ms: 100 }
    );
}

#[test]
fn timeout_zero_fires_at_the_first_look_after_the_start() {
    let c = timed(0, None);
    assert_eq!(
        c.wait_timeout(Observation::Running { pid: 1, elapsed_ms: 0 }),
        Directive::Poll { delay_ms: 100 }
    );
    assert_eq!(c.wait_timeout(Observation::Running { pid: 1, elapsed_ms: 1 }), Directive::Kill);
}

#[test]
fn timeout_fires_only_once_it_is_exceeded() {
    let c = timed(200, None);
    assert_eq!(
        c.wait_timeout(Observation::Running { pid: 1, elapsed_ms: 199 }),
        Directive::Poll { delay_ms: 100 }
    );
    assert_eq!(
        c.wait_timeout(Observation::Running { pid: 1, elapsed_ms: 200 }),
        Directive::Poll { delay_ms: 100 }
    );
    assert_eq!(c.wait_timeout(Observation::Running { pid: 1, elapsed_ms: 201 }), Directive::Kill);
}

#[test]
fn exit_seen_at_the_boundary_counts_as_exit() {
    let c = timed(200, None);
    assert_eq!(
        c.wait_timeout(Observation::Exited { code: Some(5) }),
        Directive::Finish(RunResult::Exited(5))
    );
}

#[test]
fn handle_timeout_without_teardown_kills() {
    assert_eq!(timed(200, None).handle_timeout(77), Directive::Kill);
}

#[test]
fn handle_timeout_with_teardown_runs_it_with_the_pid() {
    assert_eq!(
        timed(200, Some("kill -INT $CMD_PID")).handle_timeout(31337),
        Directive::Teardown(Launch {
            program: "/bin/sh".to_string(),
            args: strings(&["-c", "kill -INT $CMD_PID"]),
            env: vec![("CMD_PID".to_string(), "31337".to_string())],
        })
    );
}

#[test]
fn handle_timeout_writes_the_largest_pid() {
    match timed(1, Some("t")).handle_timeout(u32::MAX) {
        Directive::Teardown(launch) => {
            assert_eq!(launch.env, vec![("CMD_PID".to_string(), "4294967295".to_string())])
        }
        other => panic!("{:?}", other),
    }
}

#[test]
fn after_the_kill_the_run_is_killed() {
    assert_eq!(
        timed(200, None).wait_timeout(Observation::Terminated),
        Directive::Finish(RunResult::Killed)
    );
}

#[test]
fn a_kill_that_fails_is_an_error() {
    assert_eq!(
        timed(200, None).wait_timeout(Observation::KillFailed("EPERM".to_string())),
        Directive::Finish(RunResult::SpawnError("EPERM".to_string()))
    );
}

#[test]
fn after_the_teardown_the_run_is_killed() {
    assert_eq!(
        timed(200, Some("false")).wait_timeout(Observation::TornDown),
        Directive::Finish(RunResult::Killed)
    );
}

#[test]
fn sleeper_without_teardown_is_killed_between_200_and_400_ms() {
    let c = timed(200, None);
    let trace = drive_sleeper(&c, 100, Observation::Terminated);
    assert_eq!(
        trace,
        vec![
            Directive::Spawn(Launch {
                program: "sleep".to_string(),
                args: strings(&["2"]),
                env: vec![],
            }),
            Directive::Poll { delay_ms: 0 },
            Directive::Poll { delay_ms: 100 },
            Directive::Poll { delay_ms: 100 },
            Directive::Poll { delay_ms: 100 },
            Directive::Kill,
            Directive::Finish(RunResult::Killed),
        ]
    );
    let polls = trace.iter().filter(|d| matches!(d, Directive::Poll { delay_ms: 100 })).count();
    let kill_at = 100 * polls as u64;
    assert!(200 <= kill_at && kill_at < 400);
}

#[test]
fn sleeper_with_slow_polls_is_still_killed_before_400_ms() {
    let c = timed(200, None);
    let trace = drive_sleeper(&c, 101, Observation::Terminated);
    let polls = trace.iter().filter(|d| matches!(d, Directive::Poll { delay_ms: 100 })).count();
    let kill_at = 101 * polls as u64;
    assert_eq!(kill_at, 202);
    assert_eq!(trace.last(), Some(&Directive::Finish(RunResult::Killed)));
}

#[test]
fn sleeper_with_teardown_is_torn_down_once_and_killed() {
    let c = timed(200, Some("exit 3"));
    let trace = drive_sleeper(&c, 100, Observation::TornDown);
    let teardowns: Vec<&Directive> =
        trace.iter().filter(|d| matches!(d, Directive::Teardown(_))).collect();
    assert_eq!(
        teardowns,
        vec![&Directive::Teardown(Launch {
            program: "/bin/sh".to_string(),
            args: strings(&["-c", "exit 3"]),
            env: vec![("CMD_PID".to_string(), "4242".to_string())],
        })]
    );
    assert!(!trace.contains(&Directive::Kill));
    assert_eq!(trace.last(), Some(&Directive::Finish(RunResult::Killed)));
}

#[test]
fn exit_code_of_each_result() {
    assert_eq!(RunResult::Exited(0).exit_code(), 0);
    assert_eq!(RunResult::Exited(42).exit_code(), 42);
    assert_eq!(RunResult::Exited(-1).exit_code(), -1);
    assert_eq!(RunResult::Killed.exit_code(), 1);
    assert_eq!(RunResult::SpawnError("x".to_string()).exit_code(), 1);
}
