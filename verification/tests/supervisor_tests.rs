use sidecar_bridge::error::SupervisorError;
use sidecar_bridge::event::{Origin, OutputEvent};
use sidecar_bridge::resolver::{LaunchPlan, Layout, RootProbe, RootSurvey};
use sidecar_bridge::router::StreamRouter;
use sidecar_bridge::supervisor::{exit_event, Action, Event, Phase, Policy, Supervisor};

/// A stand-in for the host: a disk, an environment and a worker that echoes.
struct Host {
    root_override: Option<String>,
    ancestors: Vec<(String, bool)>,
    entry_exists: bool,
    interpreter_override: Option<String>,
    venv_exists: bool,
    spawn_error: Option<String>,
    write_error: Option<String>,
    wait_error: Option<String>,
    exit_status: String,
    worker_dead: bool,
    spawned: usize,
    plans: Vec<LaunchPlan>,
    detached: Vec<bool>,
    input: Vec<u8>,
    asked: Vec<&'static str>,
    events: Vec<OutputEvent>,
    diagnostic: StreamRouter,
    payload: StreamRouter,
}

fn host_with_root(root: &str) -> Host {
    Host {
        root_override: Some(root.to_string()),
        ancestors: vec![],
        entry_exists: true,
        interpreter_override: None,
        venv_exists: false,
        spawn_error: None,
        write_error: None,
        wait_error: None,
        exit_status: "exit status: 0".to_string(),
        worker_dead: false,
        spawned: 0,
        plans: vec![],
        detached: vec![],
        input: vec![],
        asked: vec![],
        events: vec![],
        diagnostic: StreamRouter::new(Origin::Diagnostic),
        payload: StreamRouter::new(Origin::Payload),
    }
}

fn answer(host: &mut Host, action: Action) -> Result<Event, Result<(), SupervisorError>> {
    match action {
        Action::ProbeExit => {
            host.asked.push("probe");
            if host.worker_dead {
                Ok(Event::Probed(Some(host.exit_status.clone())))
            } else {
                Ok(Event::Probed(None))
            }
        }
        Action::Emit(event) => {
            host.asked.push("emit");
            host.events.push(event);
            Ok(Event::Emitted)
        }
        Action::FindRoot => {
            host.asked.push("find-root");
            let mut ancestors = Vec::new();
            for (dir, has_marker) in host.ancestors.iter() {
                ancestors.push(RootProbe { dir: dir.clone(), has_marker: *has_marker });
            }
            Ok(Event::RootSurveyed(RootSurvey {
                root_override: host.root_override.clone(),
                ancestors,
            }))
        }
        Action::Inspect { root } => {
            host.asked.push("inspect");
            Ok(Event::Inspected(Layout {
                entry_point: format!("{}/sidecar/main.py", root),
                entry_exists: host.entry_exists,
                interpreter_override: host.interpreter_override.clone(),
                venv_interpreter: format!("{}/venv/Scripts/python.exe", root),
                venv_exists: host.venv_exists,
            }))
        }
        Action::Spawn { plan, detached } => {
            host.asked.push("spawn");
            match host.spawn_error.clone() {
                Some(reason) => Ok(Event::SpawnFailed(reason)),
                None => {
                    host.spawned += 1;
                    host.worker_dead = false;
                    host.plans.push(plan);
                    host.detached.push(detached);
                    let started = host.diagnostic.feed(b"started\n");
                    host.events.extend(started);
                    Ok(Event::Spawned)
                }
            }
        }
        Action::Write(bytes) => {
            host.asked.push("write");
            match host.write_error.clone() {
                Some(reason) => Ok(Event::WriteFailed(reason)),
                None => {
                    host.input.extend(bytes.iter());
                    let mut echo = b"ECHO:".to_vec();
                    echo.extend(bytes.iter());
                    let echoed = host.payload.feed(&echo);
                    host.events.extend(echoed);
                    Ok(Event::Written)
                }
            }
        }
        Action::Drain => {
            host.asked.push("drain");
            match host.wait_error.clone() {
                Some(reason) => Ok(Event::WaitFailed(reason)),
                None => Ok(Event::Exited(host.exit_status.clone())),
            }
        }
        Action::Finish(outcome) => {
            host.asked.push("finish");
            Err(outcome)
        }
    }
}

fn submit(supervisor: &mut Supervisor, host: &mut Host, message: &str) -> Result<(), SupervisorError> {
    let mut action = supervisor.begin(message);
    loop {
        match answer(host, action) {
            Ok(event) => action = supervisor.advance(event),
            Err(outcome) => return outcome,
        }
    }
}

fn diagnostic(line: &str) -> OutputEvent {
    OutputEvent { origin: Origin::Diagnostic, line: line.to_string() }
}

fn payload(line: &str) -> OutputEvent {
    OutputEvent { origin: Origin::Payload, line: line.to_string() }
}

#[test]
fn new_supervisor_is_idle_without_worker() {
    let supervisor = Supervisor::new(Policy::Supervised);
    assert_eq!(supervisor.policy(), Policy::Supervised);
    assert_eq!(supervisor.phase(), Phase::Idle);
    assert!(!supervisor.holds_worker());
}

#[test]
fn first_submission_resolves_spawns_and_writes() {
    let mut supervisor = Supervisor::new(Policy::Supervised);
    let mut host = host_with_root("/proj");
    assert_eq!(submit(&mut supervisor, &mut host, "ping"), Ok(()));
    assert_eq!(host.asked, vec!["find-root", "inspect", "spawn", "write", "finish"]);
    assert_eq!(host.spawned, 1);
    assert_eq!(host.detached, vec![true]);
    assert_eq!(host.input, b"ping\n".to_vec());
    assert!(supervisor.holds_worker());
    assert_eq!(supervisor.phase(), Phase::Idle);
}

#[test]
fn launch_follows_the_resolution() {
    let mut supervisor = Supervisor::new(Policy::Supervised);
    let mut host = host_with_root("/proj");
    host.venv_exists = true;
    assert_eq!(submit(&mut supervisor, &mut host, "ping"), Ok(()));
    assert_eq!(
        host.plans,
        vec![LaunchPlan {
            program: "/proj/venv/Scripts/python.exe".to_string(),
            argument: "/proj/sidecar/main.py".to_string(),
            working_dir: "/proj".to_string(),
            environment: vec![
                ("PYTHONIOENCODING".to_string(), "utf-8".to_string()),
                ("PYTHONUTF8".to_string(), "1".to_string()),
            ],
        }]
    );
}

#[test]
fn live_worker_is_spawned_once_over_many_submissions() {
    let mut supervisor = Supervisor::new(Policy::Supervised);
    let mut host = host_with_root("/proj");
    for round in 0..25 {
        assert_eq!(submit(&mut supervisor, &mut host, &format!("job {}", round)), Ok(()));
    }
    assert_eq!(host.spawned, 1);
    assert!(supervisor.holds_worker());
}

#[test]
fn later_submission_probes_then_writes() {
    let mut supervisor = Supervisor::new(Policy::Supervised);
    let mut host = host_with_root("/proj");
    assert_eq!(submit(&mut supervisor, &mut host, "one"), Ok(()));
    host.asked.clear();
    assert_eq!(submit(&mut supervisor, &mut host, "two"), Ok(()));
    assert_eq!(host.asked, vec!["probe", "write", "finish"]);
    assert_eq!(host.input, b"one\ntwo\n".to_vec());
}

#[test]
fn killed_worker_is_reported_then_replaced_once() {
    let mut supervisor = Supervisor::new(Policy::Supervised);
    let mut host = host_with_root("/proj");
    assert_eq!(submit(&mut supervisor, &mut host, "one"), Ok(()));
    host.worker_dead = true;
    host.exit_status = "signal: 9 (SIGKILL)".to_string();
    host.asked.clear();
    host.events.clear();
    assert_eq!(submit(&mut supervisor, &mut host, "two"), Ok(()));
    assert_eq!(
        host.asked,
        vec!["probe", "emit", "find-root", "inspect", "spawn", "write", "finish"]
    );
    assert_eq!(host.spawned, 2);
    assert_eq!(host.events[0], diagnostic("sidecar exit: signal: 9 (SIGKILL)"));
    assert!(supervisor.holds_worker());
    host.asked.clear();
    assert_eq!(submit(&mut supervisor, &mut host, "three"), Ok(()));
    assert_eq!(host.asked, vec!["probe", "write", "finish"]);
    assert_eq!(host.spawned, 2);
}

#[test]
fn exit_event_names_the_status() {
    assert_eq!(exit_event("exit status: 3"), diagnostic("sidecar exit: exit status: 3"));
}

#[test]
fn echo_worker_answers_started_then_echo() {
    let mut supervisor = Supervisor::new(Policy::Supervised);
    let mut host = host_with_root("/proj");
    assert_eq!(submit(&mut supervisor, &mut host, "ping"), Ok(()));
    assert_eq!(host.events, vec![diagnostic("started"), payload("ECHO:ping")]);
}

#[test]
fn missing_entry_point_fails_and_spawns_nothing() {
    let mut supervisor = Supervisor::new(Policy::Supervised);
    let mut host = host_with_root("/empty");
    host.entry_exists = false;
    assert_eq!(
        submit(&mut supervisor, &mut host, "ping"),
        Err(SupervisorError::EntryPointMissing { path: "/empty/sidecar/main.py".to_string() })
    );
    assert_eq!(host.asked, vec!["find-root", "inspect", "finish"]);
    assert_eq!(host.spawned, 0);
    assert!(!supervisor.holds_worker());
    assert_eq!(supervisor.phase(), Phase::Idle);
}

#[test]
fn unmarked_ancestors_fail_with_root_not_found() {
    let mut supervisor = Supervisor::new(Policy::Supervised);
    let mut host = host_with_root("/unused");
    host.root_override = None;
    host.ancestors = vec![
        ("/a/b/c/d/e".to_string(), false),
        ("/a/b/c/d".to_string(), false),
        ("/a/b/c".to_string(), false),
        ("/a/b".to_string(), false),
        ("/a".to_string(), false),
        ("/".to_string(), true),
    ];
    assert_eq!(submit(&mut supervisor, &mut host, "ping"), Err(SupervisorError::RootNotFound));
    assert_eq!(host.asked, vec!["find-root", "finish"]);
    assert_eq!(host.spawned, 0);
}

#[test]
fn walk_resolves_the_root_when_no_override_is_set() {
    let mut supervisor = Supervisor::new(Policy::Supervised);
    let mut host = host_with_root("/unused");
    host.root_override = None;
    host.ancestors = vec![("/a/b".to_string(), false), ("/a".to_string(), true)];
    assert_eq!(submit(&mut supervisor, &mut host, "ping"), Ok(()));
    assert_eq!(host.plans[0].working_dir, "/a");
    assert_eq!(host.plans[0].argument, "/a/sidecar/main.py");
    assert_eq!(host.plans[0].program, "python");
}

#[test]
fn spawn_failure_is_returned_and_no_worker_is_held() {
    let mut supervisor = Supervisor::new(Policy::Supervised);
    let mut host = host_with_root("/proj");
    host.spawn_error = Some("No such file or directory".to_string());
    assert_eq!(
        submit(&mut supervisor, &mut host, "ping"),
        Err(SupervisorError::SpawnFailed { reason: "No such file or directory".to_string() })
    );
    assert!(!supervisor.holds_worker());
    assert_eq!(host.input, Vec::<u8>::new());
    host.spawn_error = None;
    assert_eq!(submit(&mut supervisor, &mut host, "again"), Ok(()));
    assert_eq!(host.spawned, 1);
}

#[test]
fn write_failure_is_returned_and_the_worker_stays_held() {
    let mut supervisor = Supervisor::new(Policy::Supervised);
    let mut host = host_with_root("/proj");
    assert_eq!(submit(&mut supervisor, &mut host, "one"), Ok(()));
    host.write_error = Some("Broken pipe".to_string());
    assert_eq!(
        submit(&mut supervisor, &mut host, "two"),
        Err(SupervisorError::WriteFailed { reason: "Broken pipe".to_string() })
    );
    assert!(supervisor.holds_worker());
    host.write_error = None;
    host.worker_dead = true;
    host.asked.clear();
    assert_eq!(submit(&mut supervisor, &mut host, "three"), Ok(()));
    assert_eq!(host.asked[0], "probe");
    assert_eq!(host.asked[1], "emit");
    assert_eq!(host.spawned, 2);
    assert_eq!(host.input, b"one\nthree\n".to_vec());
}

#[test]
fn each_submission_writes_its_message_as_one_line() {
    let mut supervisor = Supervisor::new(Policy::Supervised);
    let mut host = host_with_root("/proj");
    let messages = ["{\"a\":1}", "", "x y z", "\u{fc}ber"];
    for message in messages {
        assert_eq!(submit(&mut supervisor, &mut host, message), Ok(()));
    }
    assert_eq!(host.input, "{\"a\":1}\n\nx y z\n\u{fc}ber\n".as_bytes().to_vec());
    let writes = host.asked.iter().filter(|name| **name == "write").count();
    assert_eq!(writes, messages.len());
}

#[test]
fn fire_once_spawns_for_every_run_and_reports_the_exit() {
    let mut launcher = Supervisor::new(Policy::FireOnce);
    let mut host = host_with_root("/proj");
    host.exit_status = "exit status: 2".to_string();
    assert_eq!(submit(&mut launcher, &mut host, "job"), Ok(()));
    assert_eq!(
        host.asked,
        vec!["find-root", "inspect", "spawn", "write", "drain", "emit", "finish"]
    );
    assert_eq!(host.detached, vec![false]);
    assert_eq!(host.events.last(), Some(&diagnostic("sidecar exit: exit status: 2")));
    assert!(!launcher.holds_worker());
    assert_eq!(submit(&mut launcher, &mut host, "job"), Ok(()));
    assert_eq!(host.spawned, 2);
}

#[test]
fn fire_once_wait_failure_is_returned() {
    let mut launcher = Supervisor::new(Policy::FireOnce);
    let mut host = host_with_root("/proj");
    host.wait_error = Some("interrupted".to_string());
    assert_eq!(
        submit(&mut launcher, &mut host, "job"),
        Err(SupervisorError::WaitFailed { reason: "interrupted".to_string() })
    );
    assert_eq!(launcher.phase(), Phase::Idle);
}

#[test]
fn fire_once_write_failure_is_returned() {
    let mut launcher = Supervisor::new(Policy::FireOnce);
    let mut host = host_with_root("/proj");
    host.write_error = Some("Broken pipe".to_string());
    assert_eq!(
        submit(&mut launcher, &mut host, "job"),
        Err(SupervisorError::WriteFailed { reason: "Broken pipe".to_string() })
    );
    assert!(!launcher.holds_worker());
}

#[test]
fn begin_asks_for_the_root_when_no_worker_is_held() {
    let mut supervisor = Supervisor::new(Policy::Supervised);
    assert_eq!(supervisor.begin("ping"), Action::FindRoot);
    assert_eq!(supervisor.phase(), Phase::Locating);
}

#[test]
fn steps_of_a_first_submission() {
    let mut supervisor = Supervisor::new(Policy::Supervised);
    assert_eq!(supervisor.begin("ping"), Action::FindRoot);
    let survey = RootSurvey { root_override: Some("/r".to_string()), ancestors: vec![] };
    assert_eq!(
        supervisor.advance(Event::RootSurveyed(survey)),
        Action::Inspect { root: "/r".to_string() }
    );
    assert_eq!(supervisor.phase(), Phase::Inspecting);
    let layout = Layout {
        entry_point: "/r/sidecar/main.py".to_string(),
        entry_exists: true,
        interpreter_override: Some("/bin/py".to_string()),
        venv_interpreter: "/r/venv/Scripts/python.exe".to_string(),
        venv_exists: true,
    };
    let spawn = supervisor.advance(Event::Inspected(layout));
    assert_eq!(
        spawn,
        Action::Spawn {
            plan: LaunchPlan {
                program: "/bin/py".to_string(),
                argument: "/r/sidecar/main.py".to_string(),
                working_dir: "/r".to_string(),
                environment: vec![
                    ("PYTHONIOENCODING".to_string(), "utf-8".to_string()),
                    ("PYTHONUTF8".to_string(), "1".to_string()),
                ],
            },
            detached: true,
        }
    );
    assert_eq!(supervisor.phase(), Phase::Spawning);
    assert!(!supervisor.holds_worker());
    assert_eq!(supervisor.advance(Event::Spawned), Action::Write(b"ping\n".to_vec()));
    assert!(supervisor.holds_worker());
    assert_eq!(supervisor.phase(), Phase::Writing);
    assert_eq!(supervisor.advance(Event::Written), Action::Finish(Ok(())));
    assert_eq!(supervisor.phase(), Phase::Idle);
}

#[test]
fn answer_out_of_turn_ends_the_submission() {
    let mut supervisor = Supervisor::new(Policy::Supervised);
    assert_eq!(supervisor.begin("ping"), Action::FindRoot);
    assert_eq!(
        supervisor.advance(Event::Written),
        Action::Finish(Err(SupervisorError::OutOfTurn))
    );
    assert_eq!(supervisor.phase(), Phase::Idle);
    assert!(!supervisor.holds_worker());
}

#[test]
fn answer_while_idle_is_out_of_turn() {
    let mut supervisor = Supervisor::new(Policy::FireOnce);
    assert_eq!(
        supervisor.advance(Event::Spawned),
        Action::Finish(Err(SupervisorError::OutOfTurn))
    );
    assert!(!supervisor.holds_worker());
}

#[test]
fn begin_gives_up_a_submission_under_way() {
    let mut supervisor = Supervisor::new(Policy::Supervised);
    let mut host = host_with_root("/proj");
    assert_eq!(supervisor.begin("lost"), Action::FindRoot);
    assert_eq!(submit(&mut supervisor, &mut host, "kept"), Ok(()));
    assert_eq!(host.input, b"kept\n".to_vec());
}

#[test]
fn probe_that_cannot_tell_counts_as_alive() {
    let mut supervisor = Supervisor::new(Policy::Supervised);
    let mut host = host_with_root("/proj");
    assert_eq!(submit(&mut supervisor, &mut host, "one"), Ok(()));
    assert_eq!(supervisor.begin("two"), Action::ProbeExit);
    assert_eq!(supervisor.advance(Event::Probed(None)), Action::Write(b"two\n".to_vec()));
}
