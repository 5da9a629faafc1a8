//! Children of the supervisor: their lives, and what is published of them.

use gander::supervisor::{
    describe_status, exit_code, ready_handle, started, wait_outcome, ChildHandle, ChildRun,
    ChildSnapshot, ChildState, Ensured, Error, ExitReport, RunAction, RunInput, RunStep, Supervisor,
};

fn spawned(pid: u32) -> RunInput {
    RunInput::Spawned {
        pid: Some(pid),
        has_stdout: true,
        has_stdin: true,
    }
}

fn line(text: &str) -> RunInput {
    RunInput::Line(Some(text.to_string()))
}

fn exited(code: i32) -> RunInput {
    RunInput::Ended(ExitReport {
        code: Some(code),
        signal: None,
    })
}

fn killed(signal: u8) -> RunInput {
    RunInput::Ended(ExitReport {
        code: None,
        signal: Some(signal),
    })
}

fn state(supervisor: &Supervisor, profile: &str) -> ChildState {
    match &supervisor.snapshot(profile).unwrap().state {
        ChildState::Starting => ChildState::Starting,
        ChildState::Ready => ChildState::Ready,
        ChildState::Failed(m) => ChildState::Failed(m.clone()),
        ChildState::Exited(code) => ChildState::Exited(*code),
    }
}

/// Brings a child to life, and returns its handle.
fn start(supervisor: &mut Supervisor, profile: &str, pid: u32) -> ChildHandle {
    assert!(matches!(supervisor.ensure_running(profile), Ensured::Spawn));
    supervisor.on_child(profile, spawned(pid)).unwrap();
    let step: RunStep = supervisor.on_child(profile, line(" 4321\n")).unwrap();
    ready_handle(step.update.unwrap())
}

#[test]
fn spawn_and_ready_happy_path() {
    let mut supervisor = Supervisor::new();
    assert!(matches!(supervisor.ensure_running("alpha"), Ensured::Spawn));
    let starting = started("alpha");
    assert_eq!(starting.profile, "alpha");
    assert_eq!(starting.snapshot.state, ChildState::Starting);
    assert_eq!(starting.snapshot.handle, None);
    assert_eq!(state(&supervisor, "alpha"), ChildState::Starting);
    assert!(matches!(supervisor.ensure_running("alpha"), Ensured::Wait));

    let step = supervisor.on_child("alpha", spawned(77)).unwrap();
    assert_eq!(step.action, RunAction::Watch);
    assert_eq!(step.update, None);
    assert!(step.event("alpha").is_none());
    let step = supervisor.on_child("alpha", line("4321\n")).unwrap();
    let event = step.event("alpha").unwrap();
    assert_eq!(event.profile, "alpha");
    assert_eq!(event.snapshot.state, ChildState::Ready);
    let ready = step.update.unwrap();
    assert_eq!(ready.state, ChildState::Ready);
    let handle = ready_handle(ready);
    let same = match supervisor.ensure_running("alpha") {
        Ensured::Ready(handle) => handle,
        other => panic!("expected a handle, got {other:?}"),
    };

    assert_eq!(handle, same);
    assert!(handle.port > 0);
    assert_eq!(handle.port, 4321);
    assert_eq!(handle.pid, 77);
    assert_eq!(handle.profile, "alpha");
    assert_eq!(state(&supervisor, "alpha"), ChildState::Ready);
}

#[test]
fn graceful_stop_within_grace_period() {
    let mut supervisor = Supervisor::new();
    start(&mut supervisor, "alpha", 1);
    let step = supervisor.stop("alpha").unwrap();
    assert_eq!(step.action, RunAction::Terminate);
    assert!(!supervisor.is_stopped("alpha"));
    supervisor.on_child("alpha", killed(15)).unwrap();
    assert!(supervisor.is_stopped("alpha"));
    assert!(matches!(state(&supervisor, "alpha"), ChildState::Exited(_)));
}

#[test]
fn forced_kill_when_grace_period_expires() {
    let mut supervisor = Supervisor::new();
    start(&mut supervisor, "alpha", 1);
    supervisor.stop("alpha").unwrap();
    let step = supervisor.on_child("alpha", RunInput::GraceExpired).unwrap();
    assert_eq!(step.action, RunAction::Kill);
    supervisor.on_child("alpha", killed(9)).unwrap();
    assert!(matches!(state(&supervisor, "alpha"), ChildState::Exited(code) if code != 0));
    assert_eq!(state(&supervisor, "alpha"), ChildState::Exited(-9));
}

#[test]
fn spontaneous_exit_transitions_to_failed() {
    let mut supervisor = Supervisor::new();
    start(&mut supervisor, "alpha", 1);
    let step = supervisor.on_child("alpha", exited(17)).unwrap();
    let snapshot: ChildSnapshot = step.update.unwrap();
    assert!(
        matches!(snapshot.state, ChildState::Failed(message) if message.contains("unexpectedly"))
    );
}

#[test]
fn restart_resets_a_failed_child() {
    let mut supervisor = Supervisor::new();
    let first = start(&mut supervisor, "alpha", 1);
    supervisor.on_child("alpha", exited(17)).unwrap();
    assert!(matches!(state(&supervisor, "alpha"), ChildState::Failed(_)));

    supervisor.stop("alpha");
    assert!(supervisor.is_stopped("alpha"));
    let restarted = start(&mut supervisor, "alpha", 2);
    assert_ne!(first.pid, restarted.pid);
    assert_eq!(state(&supervisor, "alpha"), ChildState::Ready);
}

#[test]
fn profiles_have_independent_lifecycles() {
    let mut supervisor = Supervisor::new();
    start(&mut supervisor, "alpha", 1);
    start(&mut supervisor, "beta", 2);
    supervisor.stop("alpha").unwrap();
    supervisor.on_child("alpha", killed(15)).unwrap();
    assert!(matches!(state(&supervisor, "alpha"), ChildState::Exited(_)));
    assert_eq!(state(&supervisor, "beta"), ChildState::Ready);
}

#[test]
fn dropping_supervisor_stops_all_children() {
    let mut supervisor = Supervisor::new();
    start(&mut supervisor, "alpha", 1);
    start(&mut supervisor, "beta", 2);
    let steps = supervisor.stop_all();
    assert_eq!(steps.len(), 2);
    assert_ne!(steps[0].0, steps[1].0);
    for (profile, step) in &steps {
        assert_eq!(step.action, RunAction::Terminate);
        supervisor.on_child(profile, killed(15)).unwrap();
    }
    assert!(
        supervisor.is_stopped("alpha") && supervisor.is_stopped("beta"),
        "child was not cleaned up on drop"
    );
}

#[test]
fn a_child_can_be_stopped_while_it_is_being_started() {
    let mut supervisor = Supervisor::new();
    assert!(matches!(supervisor.ensure_running("alpha"), Ensured::Spawn));
    assert_eq!(supervisor.stop("alpha").unwrap().action, RunAction::Wait);
    let step = supervisor.on_child("alpha", spawned(1)).unwrap();
    assert_eq!(step.action, RunAction::Terminate);
    supervisor.on_child("alpha", killed(15)).unwrap();
    assert_eq!(state(&supervisor, "alpha"), ChildState::Exited(-15));
}

#[test]
fn a_run_that_nobody_can_stop_is_let_go() {
    let mut run = ChildRun::new("alpha".to_string());
    run.step(spawned(1));
    run.step(line("4321"));
    let step = run.step(RunInput::Abandoned);
    assert_eq!(step.action, RunAction::Finish);
    assert_eq!(step.update, None);
    assert!(run.is_over());
}

#[test]
fn a_child_must_report_a_port() {
    let reports = ["", "port", "70000", "-1", "+", "12a"];
    for text in reports {
        let mut run = ChildRun::new("alpha".to_string());
        run.step(spawned(1));
        run.step(line(text));
        assert!(
            !matches!(run.snapshot().state, ChildState::Ready),
            "{text:?} is no port"
        );
    }
    let mut run = ChildRun::new("alpha".to_string());
    run.step(spawned(1));
    let step = run.step(line("\t+65535 \n"));
    assert_eq!(ready_handle(step.update.unwrap()).port, 65535);
}

#[test]
fn a_child_that_cannot_be_started_has_failed() {
    let mut run = ChildRun::new("alpha".to_string());
    let step = run.step(RunInput::SpawnFailed("no such file".to_string()));
    assert_eq!(step.action, RunAction::Finish);
    assert!(matches!(&run.snapshot().state, ChildState::Failed(m) if m.contains("no such file")));

    let mut run = ChildRun::new("alpha".to_string());
    run.step(RunInput::Spawned {
        pid: Some(1),
        has_stdout: false,
        has_stdin: true,
    });
    assert_eq!(
        run.snapshot().state,
        ChildState::Failed("child stdout was not piped".to_string())
    );
}

#[test]
fn a_process_ends_with_a_code_or_a_signal() {
    let code = ExitReport {
        code: Some(3),
        signal: None,
    };
    let signal = ExitReport {
        code: None,
        signal: Some(9),
    };
    let unknown = ExitReport {
        code: None,
        signal: None,
    };
    assert_eq!(describe_status(code), "exit code 3");
    assert_eq!(describe_status(signal), "signal 9");
    assert_eq!(describe_status(unknown), "unknown status");
    assert_eq!(exit_code(code), 3);
    assert_eq!(exit_code(signal), -9);
    assert_eq!(exit_code(unknown), -1);
}

#[test]
fn waiting_ends_with_a_handle_or_an_error() {
    let starting = ChildSnapshot::starting();
    assert!(wait_outcome("alpha", &starting, false).is_none());
    match wait_outcome("alpha", &starting, true) {
        Some(Err(error)) => assert_eq!(
            error.message(),
            "supervisor worker for profile `alpha` stopped unexpectedly"
        ),
        other => panic!("expected an error, got {other:?}"),
    }
    let failed = ChildSnapshot {
        handle: None,
        state: ChildState::Failed("boom".to_string()),
    };
    match wait_outcome("alpha", &failed, false) {
        Some(Err(error)) => {
            assert!(matches!(error, Error::Failed(..)));
            assert_eq!(
                error.message(),
                "child for profile `alpha` failed to start: boom"
            );
        }
        other => panic!("expected an error, got {other:?}"),
    }
    let gone = ChildSnapshot {
        handle: None,
        state: ChildState::Exited(-15),
    };
    match wait_outcome("alpha", &gone, false) {
        Some(Err(error)) => assert_eq!(
            error.message(),
            "child for profile `alpha` exited with status -15 before becoming ready"
        ),
        other => panic!("expected an error, got {other:?}"),
    }
}
