//! Supervision of child processes: one child for each profile, which reports
//! the port it listens on as its first line of output.
//!
//! [`ChildRun::step`] takes what happened to a child and says how its published
//! snapshot changes and what is to be done next.

use crate::text::{
    concat, concat3, decimal, signed_decimal, signed_text, str_eq, trim, trimmed,
};
use vstd::prelude::*;

verus! {

/// A child that is ready for use.
#[derive(Debug, PartialEq, Eq)]
pub struct ChildHandle {
    pub pid: u32,
    pub port: u16,
    pub profile: String,
}

/// The model of a [`ChildHandle`].
pub ghost struct ChildHandleView {
    pub pid: u32,
    pub port: u16,
    pub profile: Seq<char>,
}

impl View for ChildHandle {
    type V = ChildHandleView;

    open spec fn view(&self) -> ChildHandleView {
        ChildHandleView { pid: self.pid, port: self.port, profile: self.profile@ }
    }
}

impl Clone for ChildHandle {
    fn clone(&self) -> (res: Self)
        ensures
            res@ == self@,
    {
        ChildHandle { pid: self.pid, port: self.port, profile: self.profile.clone() }
    }
}

/// How far a child has come.
#[derive(Debug, PartialEq, Eq)]
pub enum ChildState {
    Starting,
    Ready,
    Failed(String),
    Exited(i32),
}

/// The model of a [`ChildState`].
pub ghost enum ChildStateView {
    Starting,
    Ready,
    Failed(Seq<char>),
    Exited(i32),
}

impl View for ChildState {
    type V = ChildStateView;

    open spec fn view(&self) -> ChildStateView {
        match self {
            ChildState::Starting => ChildStateView::Starting,
            ChildState::Ready => ChildStateView::Ready,
            ChildState::Failed(m) => ChildStateView::Failed(m@),
            ChildState::Exited(code) => ChildStateView::Exited(*code),
        }
    }
}

impl Clone for ChildState {
    fn clone(&self) -> (res: Self)
        ensures
            res@ == self@,
    {
        match self {
            ChildState::Starting => ChildState::Starting,
            ChildState::Ready => ChildState::Ready,
            ChildState::Failed(m) => ChildState::Failed(m.clone()),
            ChildState::Exited(code) => ChildState::Exited(*code),
        }
    }
}

/// What is known of a child at one time.
#[derive(Debug, PartialEq, Eq)]
pub struct ChildSnapshot {
    pub handle: Option<ChildHandle>,
    pub state: ChildState,
}

/// The model of a [`ChildSnapshot`].
pub ghost struct ChildSnapshotView {
    pub handle: Option<ChildHandleView>,
    pub state: ChildStateView,
}

impl View for ChildSnapshot {
    type V = ChildSnapshotView;

    open spec fn view(&self) -> ChildSnapshotView {
        ChildSnapshotView {
            handle: match self.handle {
                Some(handle) => Some(handle@),
                None => None,
            },
            state: self.state@,
        }
    }
}

impl Clone for ChildSnapshot {
    fn clone(&self) -> (res: Self)
        ensures
            res@ == self@,
    {
        ChildSnapshot {
            handle: match &self.handle {
                Some(handle) => Some(handle.clone()),
                None => None,
            },
            state: self.state.clone(),
        }
    }
}

impl ChildSnapshotView {
    /// The snapshot of a child that was just asked for.
    pub open spec fn starting() -> ChildSnapshotView {
        ChildSnapshotView { handle: None, state: ChildStateView::Starting }
    }

    /// The snapshot of a child that has failed.
    pub open spec fn failed(message: Seq<char>) -> ChildSnapshotView {
        ChildSnapshotView { handle: None, state: ChildStateView::Failed(message) }
    }

    /// The snapshot of a child that has ended as it was told to.
    pub open spec fn exited(code: i32) -> ChildSnapshotView {
        ChildSnapshotView { handle: None, state: ChildStateView::Exited(code) }
    }

    /// The child is ready exactly where it has a handle.
    pub open spec fn wf(self, profile: Seq<char>) -> bool {
        match self.handle {
            Some(handle) => self.state == ChildStateView::Ready && handle.profile == profile,
            None => self.state != ChildStateView::Ready,
        }
    }

    /// The child is on its way or ready.
    pub open spec fn alive(self) -> bool {
        self.state == ChildStateView::Starting || self.state == ChildStateView::Ready
    }
}

impl ChildSnapshot {
    /// The snapshot of a child that was just asked for.
    pub fn starting() -> (res: ChildSnapshot)
        ensures
            res@ == ChildSnapshotView::starting(),
    {
        ChildSnapshot { handle: None, state: ChildState::Starting }
    }

    fn failed(message: String) -> (res: ChildSnapshot)
        ensures
            res@ == ChildSnapshotView::failed(message@),
    {
        ChildSnapshot { handle: None, state: ChildState::Failed(message) }
    }
}

/// The handle of a child that is ready.
pub fn ready_handle(snapshot: ChildSnapshot) -> (handle: ChildHandle)
    requires
        snapshot@.handle is Some,
    ensures
        Some(handle@) == snapshot@.handle,
{
    match snapshot.handle {
        Some(handle) => handle,
        None => {
            assert(false);
            ChildHandle { pid: 0, port: 0, profile: String::new() }
        },
    }
}

/// A change of a child's snapshot, as subscribers get it.
#[derive(Debug, PartialEq, Eq)]
pub struct LifecycleEvent {
    pub profile: String,
    pub snapshot: ChildSnapshot,
}

/// The event that announces a child as starting.
pub fn started(profile: &str) -> (event: LifecycleEvent)
    ensures
        event.profile@ == profile@,
        event.snapshot@ == ChildSnapshotView::starting(),
{
    LifecycleEvent { profile: profile.to_owned(), snapshot: ChildSnapshot::starting() }
}

/// Why a child could not be had.
#[derive(Debug)]
pub enum Error {
    Failed(String, String),
    Exited(String, i32),
    Closed(String),
}

/// The model of an [`Error`].
pub ghost enum ErrorView {
    Failed(Seq<char>, Seq<char>),
    Exited(Seq<char>, i32),
    Closed(Seq<char>),
}

impl View for Error {
    type V = ErrorView;

    open spec fn view(&self) -> ErrorView {
        match self {
            Error::Failed(profile, m) => ErrorView::Failed(profile@, m@),
            Error::Exited(profile, code) => ErrorView::Exited(profile@, *code),
            Error::Closed(profile) => ErrorView::Closed(profile@),
        }
    }
}

impl ErrorView {
    /// The words of the error.
    pub open spec fn words(self) -> Seq<char> {
        match self {
            ErrorView::Failed(profile, m) => "child for profile `"@ + profile
                + "` failed to start: "@ + m,
            ErrorView::Exited(profile, code) => "child for profile `"@ + profile
                + "` exited with status "@ + signed_decimal(code as int)
                + " before becoming ready"@,
            ErrorView::Closed(profile) => "supervisor worker for profile `"@ + profile
                + "` stopped unexpectedly"@,
        }
    }
}

impl Error {
    /// The words of the error.
    pub fn message(&self) -> (res: String)
        ensures
            res@ == self@.words(),
    {
        match self {
            Error::Failed(profile, m) => {
                let mut words: String = concat3(
                    "child for profile `",
                    profile.as_str(),
                    "` failed to start: ",
                );
                words.append(m.as_str());
                words
            },
            Error::Exited(profile, code) => {
                let mut words: String = concat3(
                    "child for profile `",
                    profile.as_str(),
                    "` exited with status ",
                );
                words.append(signed_text(*code as i64).as_str());
                words.append(" before becoming ready");
                words
            },
            Error::Closed(profile) => concat3(
                "supervisor worker for profile `",
                profile.as_str(),
                "` stopped unexpectedly",
            ),
        }
    }
}

/// How a process ended: with a code, or by a signal.
#[derive(Clone, Copy, Debug, PartialEq, Eq, Structural)]
pub struct ExitReport {
    pub code: Option<i32>,
    pub signal: Option<u8>,
}

/// How a process ended, in words.
pub open spec fn status_words(status: ExitReport) -> Seq<char> {
    match (status.code, status.signal) {
        (Some(code), _) => "exit code "@ + signed_decimal(code as int),
        (None, Some(signal)) => "signal "@ + decimal(signal as nat),
        (None, None) => "unknown status"@,
    }
}

/// How a process ended, in words.
pub fn describe_status(status: ExitReport) -> (res: String)
    ensures
        res@ == status_words(status),
{
    match status.code {
        Some(code) => concat("exit code ", signed_text(code as i64).as_str()),
        None => match status.signal {
            Some(signal) => concat("signal ", signed_text(signal as i64).as_str()),
            None => "unknown status".to_owned(),
        },
    }
}

/// The number that stands for how a process ended: its code, or the negative
/// of its signal.
pub fn exit_code(status: ExitReport) -> (code: i32)
    ensures
        code == (match (status.code, status.signal) {
            (Some(code), _) => code as int,
            (None, Some(signal)) => -(signal as int),
            (None, None) => -1,
        }),
{
    match status.code {
        Some(code) => code,
        None => match status.signal {
            Some(signal) => -(signal as i32),
            None => -1,
        },
    }
}

/// The value of a run of decimal digits.
pub open spec fn digits_value(s: Seq<char>) -> Option<nat>
    decreases s.len(),
{
    if s.len() == 0 {
        Some(0)
    } else if '0' <= s.last() <= '9' {
        match digits_value(s.drop_last()) {
            Some(n) => Some((10 * n + (s.last() as int - '0' as int)) as nat),
            None => None,
        }
    } else {
        None
    }
}

/// The port that a text names: decimal digits, with or without a plus sign
/// before them, of a number that fits a port.
pub open spec fn port_value(s: Seq<char>) -> Option<nat> {
    let digits = if s.len() > 0 && s[0] == '+' {
        s.drop_first()
    } else {
        s
    };
    if digits.len() == 0 {
        None
    } else {
        match digits_value(digits) {
            Some(n) => if n <= u16::MAX {
                Some(n)
            } else {
                None
            },
            None => None,
        }
    }
}

/// The words of the error for a text that names no port.
pub uninterp spec fn port_error(text: Seq<char>) -> Seq<char>;

/// Calls `str::parse::<u16>`, which reads decimal digits with an optional plus
/// sign, and writes out its error. The words of the error are left to a name.
#[verifier::external_body]
fn parse_port(text: &str) -> (res: Result<u16, String>)
    ensures
        match res {
            Ok(port) => port_value(text@) == Some(port as nat),
            Err(words) => port_value(text@) is None && words@ == port_error(text@),
        },
{
    text.parse::<u16>().map_err(|error| error.to_string())
}

/// How far the run of a child has come.
#[derive(Debug, Clone, Copy, PartialEq, Eq, Structural)]
pub enum RunPhase {
    /// The process is being started. `stop` tells whether it is to be stopped
    /// right away.
    Spawning { stop: bool },
    /// A process without an id is being killed.
    Reaping,
    /// The process has not reported its port.
    AwaitingPort { pid: u32 },
    /// The process is in use.
    Running,
    /// The process was told to end. `used` tells whether it was in use.
    Stopping { used: bool },
    /// The process was killed.
    Killing { used: bool },
    /// The run is over.
    Over,
}

/// What happened to a child.
#[derive(Debug)]
pub enum RunInput {
    /// The process could not be started.
    SpawnFailed(String),
    /// The process was started.
    Spawned { pid: Option<u32>, has_stdout: bool, has_stdin: bool },
    /// A process without an id was killed.
    Reaped,
    /// A line of output, or the end of output.
    Line(Option<String>),
    /// Output could not be read.
    ReadFailed(String),
    /// The process ended.
    Ended(ExitReport),
    /// Waiting for the process failed.
    WaitFailed(String),
    /// The child is to be stopped.
    Stop,
    /// Nobody is left who could stop the child.
    Abandoned,
    /// The process could not be told to end.
    SignalFailed(String),
    /// The process did not end in time.
    GraceExpired,
}

/// The model of a [`RunInput`].
pub ghost enum RunInputView {
    SpawnFailed(Seq<char>),
    Spawned { pid: Option<u32>, has_stdout: bool, has_stdin: bool },
    Reaped,
    Line(Option<Seq<char>>),
    ReadFailed(Seq<char>),
    Ended(ExitReport),
    WaitFailed(Seq<char>),
    Stop,
    Abandoned,
    SignalFailed(Seq<char>),
    GraceExpired,
}

impl View for RunInput {
    type V = RunInputView;

    open spec fn view(&self) -> RunInputView {
        match self {
            RunInput::SpawnFailed(e) => RunInputView::SpawnFailed(e@),
            RunInput::Spawned { pid, has_stdout, has_stdin } => RunInputView::Spawned {
                pid: *pid,
                has_stdout: *has_stdout,
                has_stdin: *has_stdin,
            },
            RunInput::Reaped => RunInputView::Reaped,
            RunInput::Line(line) => RunInputView::Line(crate::text::opt_text(*line)),
            RunInput::ReadFailed(e) => RunInputView::ReadFailed(e@),
            RunInput::Ended(status) => RunInputView::Ended(*status),
            RunInput::WaitFailed(e) => RunInputView::WaitFailed(e@),
            RunInput::Stop => RunInputView::Stop,
            RunInput::Abandoned => RunInputView::Abandoned,
            RunInput::SignalFailed(e) => RunInputView::SignalFailed(e@),
            RunInput::GraceExpired => RunInputView::GraceExpired,
        }
    }
}

/// What is to be done with a child.
#[derive(Debug, Clone, Copy, PartialEq, Eq, Structural)]
pub enum RunAction {
    /// Keep waiting: what happened was not awaited.
    Wait,
    /// Kill a process without an id, and wait for it.
    Reap,
    /// Wait for output, for the end of the process, or to be told to stop it.
    Watch,
    /// Tell the process to end, and wait for it for the time it is granted.
    Terminate,
    /// Kill the process, and wait for it.
    Kill,
    /// Let the process go.
    Finish,
}

/// What a step changes.
#[derive(Debug)]
pub struct RunStep {
    /// The snapshot, where it changed.
    pub update: Option<ChildSnapshot>,
    /// The child's input and output became available, or ceased to be.
    pub stdio: Option<bool>,
    pub action: RunAction,
}

/// The model of a [`RunStep`].
pub ghost struct RunStepView {
    pub update: Option<ChildSnapshotView>,
    pub stdio: Option<bool>,
    pub action: RunAction,
}

impl View for RunStep {
    type V = RunStepView;

    open spec fn view(&self) -> RunStepView {
        RunStepView {
            update: match self.update {
                Some(snapshot) => Some(snapshot@),
                None => None,
            },
            stdio: self.stdio,
            action: self.action,
        }
    }
}

impl RunStep {
    /// What subscribers get of a step in the run of a profile's child.
    pub fn event(&self, profile: &str) -> (res: Option<LifecycleEvent>)
        ensures
            match res {
                Some(event) => event.profile@ == profile@ && self@.update == Some(event.snapshot@),
                None => self@.update is None,
            },
    {
        match &self.update {
            Some(snapshot) => Some(
                LifecycleEvent { profile: profile.to_owned(), snapshot: snapshot.clone() },
            ),
            None => None,
        }
    }
}

/// The run of one child.
#[derive(Debug)]
pub struct ChildRun {
    profile: String,
    phase: RunPhase,
    snapshot: ChildSnapshot,
}

/// The model of a [`ChildRun`].
pub ghost struct ChildRunView {
    pub profile: Seq<char>,
    pub phase: RunPhase,
    pub snapshot: ChildSnapshotView,
}

impl View for ChildRun {
    type V = ChildRunView;

    closed spec fn view(&self) -> ChildRunView {
        ChildRunView { profile: self.profile@, phase: self.phase, snapshot: self.snapshot@ }
    }
}

/// A run, and what its step gave.
pub type Ran = (ChildRunView, RunStepView);

impl ChildRunView {
    /// The run of a child that was just asked for.
    pub open spec fn initial(profile: Seq<char>) -> ChildRunView {
        ChildRunView {
            profile,
            phase: RunPhase::Spawning { stop: false },
            snapshot: ChildSnapshotView::starting(),
        }
    }

    /// Goes on in another phase.
    pub open spec fn goes(self, phase: RunPhase, action: RunAction) -> Ran {
        (ChildRunView { phase, ..self }, RunStepView { update: None, stdio: None, action })
    }

    /// Is over with a last snapshot.
    pub open spec fn ends(self, snapshot: ChildSnapshotView, stdio: Option<bool>) -> Ran {
        (
            ChildRunView { phase: RunPhase::Over, snapshot, ..self },
            RunStepView { update: Some(snapshot), stdio, action: RunAction::Finish },
        )
    }

    /// Is over with an error.
    pub open spec fn fails(self, message: Seq<char>) -> Ran {
        self.ends(ChildSnapshotView::failed(message), None)
    }

    /// A process was started.
    pub open spec fn spawned(
        self,
        stop: bool,
        pid: Option<u32>,
        has_stdout: bool,
        has_stdin: bool,
    ) -> Ran {
        match pid {
            None => self.goes(RunPhase::Reaping, RunAction::Reap),
            Some(pid) => if !has_stdout {
                self.fails("child stdout was not piped"@)
            } else if !has_stdin {
                self.fails("child stdin was not piped"@)
            } else if stop {
                self.goes(RunPhase::Stopping { used: false }, RunAction::Terminate)
            } else {
                self.goes(RunPhase::AwaitingPort { pid }, RunAction::Watch)
            },
        }
    }

    /// The line that names the port arrived.
    pub open spec fn reported(self, pid: u32, line: Seq<char>) -> Ran {
        match port_value(trimmed(line)) {
            Some(port) => {
                let snapshot = ChildSnapshotView {
                    handle: Some(
                        ChildHandleView { pid, port: port as u16, profile: self.profile },
                    ),
                    state: ChildStateView::Ready,
                };
                (
                    ChildRunView { phase: RunPhase::Running, snapshot, ..self },
                    RunStepView {
                        update: Some(snapshot),
                        stdio: Some(true),
                        action: RunAction::Watch,
                    },
                )
            },
            None => self.fails("invalid port `"@ + line + "`: "@ + port_error(trimmed(line))),
        }
    }

    /// Was stopped, and is over.
    pub open spec fn stopped(self, snapshot: ChildSnapshotView, used: bool) -> Ran {
        self.ends(
            snapshot,
            if used {
                Some(false)
            } else {
                None
            },
        )
    }

    /// The step of the run on an input.
    pub open spec fn step(self, input: RunInputView) -> Ran {
        match (self.phase, input) {
            (RunPhase::Spawning { .. }, RunInputView::SpawnFailed(e)) => self.fails(e),
            (
                RunPhase::Spawning { stop },
                RunInputView::Spawned { pid, has_stdout, has_stdin },
            ) => self.spawned(stop, pid, has_stdout, has_stdin),
            (RunPhase::Spawning { .. }, RunInputView::Stop) => self.goes(
                RunPhase::Spawning { stop: true },
                RunAction::Wait,
            ),
            (RunPhase::Reaping, RunInputView::Reaped) => self.fails(
                "child pid unavailable after spawn"@,
            ),
            (RunPhase::AwaitingPort { pid }, RunInputView::Line(Some(line))) => self.reported(
                pid,
                line,
            ),
            (RunPhase::AwaitingPort { .. }, RunInputView::Line(None)) => self.fails(
                "child closed stdout before reporting a port"@,
            ),
            (RunPhase::AwaitingPort { .. }, RunInputView::ReadFailed(e)) => self.fails(
                "failed reading child stdout: "@ + e,
            ),
            (RunPhase::AwaitingPort { .. }, RunInputView::Ended(status)) => self.fails(
                "process exited before reporting a port ("@ + status_words(status) + ")"@,
            ),
            (RunPhase::AwaitingPort { .. }, RunInputView::WaitFailed(e)) => self.fails(
                "failed waiting for child: "@ + e,
            ),
            (RunPhase::AwaitingPort { .. }, RunInputView::Stop) => self.goes(
                RunPhase::Stopping { used: false },
                RunAction::Terminate,
            ),
            (RunPhase::AwaitingPort { .. }, RunInputView::Abandoned) => self.goes(
                RunPhase::Over,
                RunAction::Finish,
            ),
            (RunPhase::Running, RunInputView::Stop) => self.goes(
                RunPhase::Stopping { used: true },
                RunAction::Terminate,
            ),
            (RunPhase::Running, RunInputView::Abandoned) => (
                ChildRunView { phase: RunPhase::Over, ..self },
                RunStepView { update: None, stdio: Some(false), action: RunAction::Finish },
            ),
            (RunPhase::Running, RunInputView::Ended(status)) => self.stopped(
                ChildSnapshotView::failed(
                    "process exited unexpectedly ("@ + status_words(status) + ")"@,
                ),
                true,
            ),
            (RunPhase::Running, RunInputView::WaitFailed(e)) => self.stopped(
                ChildSnapshotView::failed("failed waiting for child: "@ + e),
                true,
            ),
            (RunPhase::Stopping { used }, RunInputView::GraceExpired) => self.goes(
                RunPhase::Killing { used },
                RunAction::Kill,
            ),
            (RunPhase::Stopping { used }, RunInputView::SignalFailed(e)) => self.stopped(
                ChildSnapshotView::failed("failed stopping child: "@ + e),
                used,
            ),
            (RunPhase::Stopping { used }, RunInputView::Ended(status)) => self.stopped(
                ChildSnapshotView::exited(code_of(status)),
                used,
            ),
            (RunPhase::Stopping { used }, RunInputView::WaitFailed(e)) => self.stopped(
                ChildSnapshotView::failed("failed stopping child: "@ + e),
                used,
            ),
            (RunPhase::Killing { used }, RunInputView::Ended(status)) => self.stopped(
                ChildSnapshotView::exited(code_of(status)),
                used,
            ),
            (RunPhase::Killing { used }, RunInputView::WaitFailed(e)) => self.stopped(
                ChildSnapshotView::failed("failed stopping child: "@ + e),
                used,
            ),
            _ => self.goes(self.phase, RunAction::Wait),
        }
    }
}

/// The number that stands for how a process ended.
pub open spec fn code_of(status: ExitReport) -> i32 {
    match (status.code, status.signal) {
        (Some(code), _) => code,
        (None, Some(signal)) => (-(signal as int)) as i32,
        (None, None) => -1i32,
    }
}

impl ChildRun {
    /// The run of a child that was just asked for.
    pub fn new(profile: String) -> (res: ChildRun)
        ensures
            res@ == ChildRunView::initial(profile@),
    {
        ChildRun {
            profile,
            phase: RunPhase::Spawning { stop: false },
            snapshot: ChildSnapshot::starting(),
        }
    }

    /// What is known of the child.
    pub fn snapshot(&self) -> (res: &ChildSnapshot)
        ensures
            res@ == self@.snapshot,
    {
        &self.snapshot
    }

    /// Whether the run is over.
    pub fn is_over(&self) -> (res: bool)
        ensures
            res == (self@.phase == RunPhase::Over),
    {
        self.phase == RunPhase::Over
    }

    fn goes(&mut self, phase: RunPhase, action: RunAction) -> (res: RunStep)
        ensures
            (final(self)@, res@) == old(self)@.goes(phase, action),
    {
        self.phase = phase;
        RunStep { update: None, stdio: None, action }
    }

    fn ends(&mut self, snapshot: ChildSnapshot, stdio: Option<bool>) -> (res: RunStep)
        ensures
            (final(self)@, res@) == old(self)@.ends(snapshot@, stdio),
    {
        self.phase = RunPhase::Over;
        self.snapshot = snapshot.clone();
        RunStep { update: Some(snapshot), stdio, action: RunAction::Finish }
    }

    fn fails(&mut self, message: String) -> (res: RunStep)
        ensures
            (final(self)@, res@) == old(self)@.fails(message@),
    {
        self.ends(ChildSnapshot::failed(message), None)
    }

    fn stopped(&mut self, snapshot: ChildSnapshot, used: bool) -> (res: RunStep)
        ensures
            (final(self)@, res@) == old(self)@.stopped(snapshot@, used),
    {
        self.ends(
            snapshot,
            if used {
                Some(false)
            } else {
                None
            },
        )
    }

    fn spawned(
        &mut self,
        stop: bool,
        pid: Option<u32>,
        has_stdout: bool,
        has_stdin: bool,
    ) -> (res: RunStep)
        ensures
            (final(self)@, res@) == old(self)@.spawned(stop, pid, has_stdout, has_stdin),
    {
        match pid {
            None => self.goes(RunPhase::Reaping, RunAction::Reap),
            Some(pid) => if !has_stdout {
                self.fails("child stdout was not piped".to_owned())
            } else if !has_stdin {
                self.fails("child stdin was not piped".to_owned())
            } else if stop {
                self.goes(RunPhase::Stopping { used: false }, RunAction::Terminate)
            } else {
                self.goes(RunPhase::AwaitingPort { pid }, RunAction::Watch)
            },
        }
    }

    fn reported(&mut self, pid: u32, line: &str) -> (res: RunStep)
        ensures
            (final(self)@, res@) == old(self)@.reported(pid, line@),
    {
        match parse_port(trim(line)) {
            Ok(port) => {
                let snapshot = ChildSnapshot {
                    handle: Some(ChildHandle { pid, port, profile: self.profile.clone() }),
                    state: ChildState::Ready,
                };
                self.phase = RunPhase::Running;
                self.snapshot = snapshot.clone();
                RunStep { update: Some(snapshot), stdio: Some(true), action: RunAction::Watch }
            },
            Err(words) => {
                let mut message: String = concat3("invalid port `", line, "`: ");
                message.append(words.as_str());
                self.fails(message)
            },
        }
    }

    /// Takes what happened to the child, and says what changes and what is to
    /// be done next.
    pub fn step(&mut self, input: RunInput) -> (res: RunStep)
        ensures
            (final(self)@, res@) == old(self)@.step(input@),
    {
        match (self.phase, input) {
            (RunPhase::Spawning { .. }, RunInput::SpawnFailed(e)) => self.fails(e),
            (
                RunPhase::Spawning { stop },
                RunInput::Spawned { pid, has_stdout, has_stdin },
            ) => self.spawned(stop, pid, has_stdout, has_stdin),
            (RunPhase::Spawning { .. }, RunInput::Stop) => self.goes(
                RunPhase::Spawning { stop: true },
                RunAction::Wait,
            ),
            (RunPhase::Reaping, RunInput::Reaped) => self.fails(
                "child pid unavailable after spawn".to_owned(),
            ),
            (RunPhase::AwaitingPort { pid }, RunInput::Line(Some(line))) => self.reported(
                pid,
                line.as_str(),
            ),
            (RunPhase::AwaitingPort { .. }, RunInput::Line(None)) => self.fails(
                "child closed stdout before reporting a port".to_owned(),
            ),
            (RunPhase::AwaitingPort { .. }, RunInput::ReadFailed(e)) => self.fails(
                concat("failed reading child stdout: ", e.as_str()),
            ),
            (RunPhase::AwaitingPort { .. }, RunInput::Ended(status)) => self.fails(
                concat3(
                    "process exited before reporting a port (",
                    describe_status(status).as_str(),
                    ")",
                ),
            ),
            (RunPhase::AwaitingPort { .. }, RunInput::WaitFailed(e)) => self.fails(
                concat("failed waiting for child: ", e.as_str()),
            ),
            (RunPhase::AwaitingPort { .. }, RunInput::Stop) => self.goes(
                RunPhase::Stopping { used: false },
                RunAction::Terminate,
            ),
            (RunPhase::AwaitingPort { .. }, RunInput::Abandoned) => self.goes(
                RunPhase::Over,
                RunAction::Finish,
            ),
            (RunPhase::Running, RunInput::Stop) => self.goes(
                RunPhase::Stopping { used: true },
                RunAction::Terminate,
            ),
            (RunPhase::Running, RunInput::Abandoned) => {
                self.phase = RunPhase::Over;
                RunStep { update: None, stdio: Some(false), action: RunAction::Finish }
            },
            (RunPhase::Running, RunInput::Ended(status)) => self.stopped(
                ChildSnapshot::failed(
                    concat3(
                        "process exited unexpectedly (",
                        describe_status(status).as_str(),
                        ")",
                    ),
                ),
                true,
            ),
            (RunPhase::Running, RunInput::WaitFailed(e)) => self.stopped(
                ChildSnapshot::failed(concat("failed waiting for child: ", e.as_str())),
                true,
            ),
            (RunPhase::Stopping { used }, RunInput::GraceExpired) => self.goes(
                RunPhase::Killing { used },
                RunAction::Kill,
            ),
            (RunPhase::Stopping { used }, RunInput::SignalFailed(e)) => self.stopped(
                ChildSnapshot::failed(concat("failed stopping child: ", e.as_str())),
                used,
            ),
            (RunPhase::Stopping { used }, RunInput::Ended(status)) => self.stopped(
                ChildSnapshot { handle: None, state: ChildState::Exited(exit_code(status)) },
                used,
            ),
            (RunPhase::Stopping { used }, RunInput::WaitFailed(e)) => self.stopped(
                ChildSnapshot::failed(concat("failed stopping child: ", e.as_str())),
                used,
            ),
            (RunPhase::Killing { used }, RunInput::Ended(status)) => self.stopped(
                ChildSnapshot { handle: None, state: ChildState::Exited(exit_code(status)) },
                used,
            ),
            (RunPhase::Killing { used }, RunInput::WaitFailed(e)) => self.stopped(
                ChildSnapshot::failed(concat("failed stopping child: ", e.as_str())),
                used,
            ),
            (phase, _) => self.goes(phase, RunAction::Wait),
        }
    }
}

/// What has to be done so that a child runs.
#[derive(Debug)]
pub enum Ensured {
    /// Nothing: it is ready.
    Ready(ChildHandle),
    /// Wait: it is on its way.
    Wait,
    /// Start it. A run for it was begun.
    Spawn,
}

/// The children by their profiles.
pub type Runs = Map<Seq<char>, ChildRunView>;

/// The children, at most one for each profile.
#[derive(Debug)]
pub struct Supervisor {
    runs: Vec<ChildRun>,
}

impl View for Supervisor {
    type V = Runs;

    closed spec fn view(&self) -> Runs {
        Map::new(
            |profile: Seq<char>| exists|i: int| self.holds(profile, i),
            |profile: Seq<char>| self.runs[choose|i: int| self.holds(profile, i)]@,
        )
    }
}

/// What holds of the children at all times: each is kept under its profile,
/// and has a handle exactly where it is ready.
pub open spec fn runs_wf(runs: Runs) -> bool {
    forall|profile: Seq<char>| #[trigger]
        runs.contains_key(profile) ==> runs[profile].profile == profile
            && runs[profile].snapshot.wf(profile)
}

/// The children after one was asked for.
pub open spec fn ensured(runs: Runs, profile: Seq<char>) -> Runs {
    if runs.contains_key(profile) && runs[profile].snapshot.alive() {
        runs
    } else {
        runs.insert(profile, ChildRunView::initial(profile))
    }
}

/// The children after each was told to stop.
pub open spec fn all_told(runs: Runs) -> Runs {
    Map::new(
        |profile: Seq<char>| runs.contains_key(profile),
        |profile: Seq<char>| runs[profile].step(RunInputView::Stop).0,
    )
}

impl Supervisor {
    spec fn holds(self, profile: Seq<char>, i: int) -> bool {
        0 <= i < self.runs.len() && self.runs[i]@.profile == profile
    }

    spec fn distinct(self) -> bool {
        forall|i: int, j: int|
            0 <= i < j < self.runs.len() ==> (#[trigger] self.runs[i])@.profile != (
            #[trigger] self.runs[j])@.profile
    }

    /// The children are well-formed.
    pub closed spec fn wf(self) -> bool {
        self.distinct() && runs_wf(self@)
    }

    proof fn lemma_lookup(self, profile: Seq<char>, i: int)
        requires
            self.distinct(),
            self.holds(profile, i),
        ensures
            self@.contains_key(profile),
            self@[profile] == self.runs[i]@,
    {
        let k = choose|k: int| self.holds(profile, k);
        assert(self.holds(profile, k));
    }

    /// Each child is kept under its profile, and has a handle exactly where it
    /// is ready.
    pub proof fn law_children_are_well_formed(self)
        requires
            self.wf(),
        ensures
            runs_wf(self@),
    {
    }

    /// What the children are after one of them was put at a position.
    proof fn lemma_put(before: Supervisor, after: Supervisor, at: int, run: ChildRunView)
        requires
            before.distinct(),
            0 <= at <= before.runs.len(),
            at < before.runs.len() ==> before.holds(run.profile, at),
            at == before.runs.len() ==> !before@.contains_key(run.profile),
            after.runs.len() == (if at < before.runs.len() {
                before.runs.len() as int
            } else {
                before.runs.len() + 1
            }),
            after.runs[at]@ == run,
            forall|i: int|
                0 <= i < before.runs.len() && i != at ==> #[trigger] after.runs[i]
                    == before.runs[i],
        ensures
            after.distinct(),
            after@ == before@.insert(run.profile, run),
    {
        assert forall|i: int, j: int| 0 <= i < j < after.runs.len() implies (
        #[trigger] after.runs[i])@.profile != (#[trigger] after.runs[j])@.profile by {
            if i == at {
                assert(before.runs[i]@.profile != before.runs[j]@.profile);
            } else if j == at {
                if at == before.runs.len() {
                    if after.runs[i]@.profile == run.profile {
                        before.lemma_lookup(run.profile, i);
                    }
                } else {
                    assert(before.runs[i]@.profile != before.runs[j]@.profile);
                }
            } else {
                assert(before.runs[i]@.profile != before.runs[j]@.profile);
            }
        }
        let want = before@.insert(run.profile, run);
        assert forall|p: Seq<char>| after@.contains_key(p) == want.contains_key(p) by {
            if after@.contains_key(p) && p != run.profile {
                let i = choose|i: int| after.holds(p, i);
                before.lemma_lookup(p, i);
            }
            if p == run.profile {
                after.lemma_lookup(p, at);
            } else if before@.contains_key(p) {
                let i = choose|i: int| before.holds(p, i);
                assert(after.holds(p, i));
            }
        }
        assert forall|p: Seq<char>| after@.contains_key(p) implies after@[p] == want[p] by {
            if p == run.profile {
                after.lemma_lookup(p, at);
            } else {
                let i = choose|i: int| after.holds(p, i);
                after.lemma_lookup(p, i);
                before.lemma_lookup(p, i);
            }
        }
        assert(after@ =~= want);
    }

    /// No child.
    pub fn new() -> (res: Supervisor)
        ensures
            res@ == Runs::empty(),
            res.wf(),
    {
        let res = Supervisor { runs: Vec::new() };
        assert(res@ =~= Map::empty());
        res
    }

    /// The position of a profile's child, or the number of children.
    fn position(&self, profile: &str) -> (at: usize)
        ensures
            at <= self.runs.len(),
            at < self.runs.len() ==> self.holds(profile@, at as int),
            at == self.runs.len() ==> !self@.contains_key(profile@),
    {
        let mut at: usize = 0;
        while at < self.runs.len()
            invariant
                at <= self.runs.len(),
                forall|i: int| 0 <= i < at ==> !self.holds(profile@, i),
            decreases self.runs.len() - at,
        {
            if str_eq(self.runs[at].profile.as_str(), profile) {
                return at;
            }
            at += 1;
        }
        at
    }

    /// What is known of a profile's child.
    pub fn snapshot(&self, profile: &str) -> (res: Option<&ChildSnapshot>)
        requires
            self.wf(),
        ensures
            match res {
                Some(snapshot) => self@.contains_key(profile@) && snapshot@
                    == self@[profile@].snapshot,
                None => !self@.contains_key(profile@),
            },
    {
        let at: usize = self.position(profile);
        if at < self.runs.len() {
            proof {
                self.lemma_lookup(profile@, at as int);
            }
            Some(self.runs[at].snapshot())
        } else {
            None
        }
    }

    /// Sees to it that a profile has a child on its way or ready. One that has
    /// failed or ended is started anew.
    pub fn ensure_running(&mut self, profile: &str) -> (res: Ensured)
        requires
            old(self).wf(),
        ensures
            final(self).wf(),
            final(self)@ == ensured(old(self)@, profile@),
            ({
                let runs = old(self)@;
                match res {
                    Ensured::Ready(handle) => runs.contains_key(profile@)
                        && runs[profile@].snapshot.state == ChildStateView::Ready && Some(handle@)
                        == runs[profile@].snapshot.handle,
                    Ensured::Wait => runs.contains_key(profile@) && runs[profile@].snapshot.state
                        == ChildStateView::Starting,
                    Ensured::Spawn => !(runs.contains_key(profile@)
                        && runs[profile@].snapshot.alive()),
                }
            }),
    {
        let ghost before = *self;
        let at: usize = self.position(profile);
        if at < self.runs.len() {
            proof {
                self.lemma_lookup(profile@, at as int);
            }
            let snapshot = self.runs[at].snapshot();
            match &snapshot.state {
                ChildState::Ready => {
                    let handle = ready_handle(snapshot.clone());
                    return Ensured::Ready(handle);
                },
                ChildState::Starting => {
                    return Ensured::Wait;
                },
                _ => {},
            }
            self.runs.set(at, ChildRun::new(profile.to_owned()));
        } else {
            self.runs.push(ChildRun::new(profile.to_owned()));
        }
        proof {
            Supervisor::lemma_put(before, *self, at as int, ChildRunView::initial(profile@));
        }
        Ensured::Spawn
    }

    /// Takes what happened to a profile's child. Without such a child nothing
    /// changes.
    pub fn on_child(&mut self, profile: &str, input: RunInput) -> (res: Option<RunStep>)
        requires
            old(self).wf(),
        ensures
            final(self).wf(),
            ({
                let runs = old(self)@;
                if runs.contains_key(profile@) {
                    let (run, step) = runs[profile@].step(input@);
                    &&& final(self)@ == runs.insert(profile@, run)
                    &&& res matches Some(out) && out@ == step
                } else {
                    final(self)@ == runs && res is None
                }
            }),
    {
        let ghost before = *self;
        let at: usize = self.position(profile);
        if at == self.runs.len() {
            return None;
        }
        proof {
            self.lemma_lookup(profile@, at as int);
        }
        let mut run: ChildRun = ChildRun::new(String::new());
        self.runs.set_and_swap(at, &mut run);
        let res = run.step(input);
        let ghost model = run@;
        self.runs.set(at, run);
        proof {
            law_step_keeps_handle(before@[profile@], input@);
            Supervisor::lemma_put(before, *self, at as int, model);
        }
        Some(res)
    }

    /// Tells a profile's child to stop. Without such a child there is nothing
    /// to be stopped.
    pub fn stop(&mut self, profile: &str) -> (res: Option<RunStep>)
        requires
            old(self).wf(),
        ensures
            final(self).wf(),
            ({
                let runs = old(self)@;
                if runs.contains_key(profile@) {
                    let (run, step) = runs[profile@].step(RunInputView::Stop);
                    &&& final(self)@ == runs.insert(profile@, run)
                    &&& res matches Some(out) && out@ == step
                } else {
                    final(self)@ == runs && res is None
                }
            }),
    {
        self.on_child(profile, RunInput::Stop)
    }

    /// Tells every child to stop, and says for each what is to be done.
    pub fn stop_all(&mut self) -> (steps: Vec<(String, RunStep)>)
        requires
            old(self).wf(),
        ensures
            final(self).wf(),
            final(self)@ == all_told(old(self)@),
            forall|i: int|
                0 <= i < steps.len() ==> {
                    let profile = (#[trigger] steps[i]).0@;
                    &&& old(self)@.contains_key(profile)
                    &&& steps[i].1@ == old(self)@[profile].step(RunInputView::Stop).1
                },
            forall|profile: Seq<char>| #[trigger]
                old(self)@.contains_key(profile) ==> exists|i: int|
                    0 <= i < steps.len() && (#[trigger] steps[i]).0@ == profile,
            forall|i: int, j: int|
                0 <= i < j < steps.len() ==> (#[trigger] steps[i]).0@ != (#[trigger] steps[j]).0@,
    {
        let ghost before = *self;
        let mut steps: Vec<(String, RunStep)> = Vec::new();
        let mut i: usize = 0;
        while i < self.runs.len()
            invariant
                before.distinct(),
                self.runs.len() == before.runs.len(),
                i <= self.runs.len(),
                steps.len() == i,
                forall|k: int|
                    0 <= k < i ==> (#[trigger] self.runs[k])@ == before.runs[k]@.step(
                        RunInputView::Stop,
                    ).0,
                forall|k: int| i <= k < self.runs.len() ==> #[trigger] self.runs[k] == before.runs[k],
                forall|k: int|
                    0 <= k < i ==> (#[trigger] steps[k]).0@ == before.runs[k]@.profile
                        && steps[k].1@ == before.runs[k]@.step(RunInputView::Stop).1,
            decreases self.runs.len() - i,
        {
            let profile: String = self.runs[i].profile.clone();
            let mut run: ChildRun = ChildRun::new(String::new());
            self.runs.set_and_swap(i, &mut run);
            let step = run.step(RunInput::Stop);
            self.runs.set(i, run);
            steps.push((profile, step));
            i += 1;
        }
        proof {
            let after = *self;
            assert forall|k: int| 0 <= k < before.runs.len() implies (
            #[trigger] after.runs[k])@.profile == before.runs[k]@.profile by {
                assert(after.runs[k]@ == before.runs[k]@.step(RunInputView::Stop).0);
            }
            assert forall|a: int, b: int| 0 <= a < b < steps.len() implies (
            #[trigger] steps[a]).0@ != (#[trigger] steps[b]).0@ by {
                assert(before.runs[a]@.profile != before.runs[b]@.profile);
            }
            assert(after.distinct()) by {
                assert forall|a: int, b: int| 0 <= a < b < after.runs.len() implies (
                #[trigger] after.runs[a])@.profile != (#[trigger] after.runs[b])@.profile by {
                    assert(before.runs[a]@.profile != before.runs[b]@.profile);
                }
            }
            assert forall|p: Seq<char>| #[trigger]
                after@.contains_key(p) == before@.contains_key(p) && (before@.contains_key(p)
                    ==> after@[p] == before@[p].step(RunInputView::Stop).0) by {
                if after@.contains_key(p) {
                    let k = choose|k: int| after.holds(p, k);
                    assert(before.holds(p, k));
                }
                if before@.contains_key(p) {
                    let k = choose|k: int| before.holds(p, k);
                    assert(after.holds(p, k));
                    after.lemma_lookup(p, k);
                    before.lemma_lookup(p, k);
                }
            }
            assert(after@ =~= all_told(before@));
            assert forall|p: Seq<char>| #[trigger] after@.contains_key(p) implies after@[p].profile
                == p && after@[p].snapshot.wf(p) by {
                law_step_keeps_handle(before@[p], RunInputView::Stop);
            }
            assert forall|k: int| 0 <= k < steps.len() implies ({
                let profile = (#[trigger] steps[k]).0@;
                &&& before@.contains_key(profile)
                &&& steps[k].1@ == before@[profile].step(RunInputView::Stop).1
            }) by {
                before.lemma_lookup(steps[k].0@, k);
            }
            assert forall|p: Seq<char>| #[trigger] before@.contains_key(p) implies exists|k: int|
                0 <= k < steps.len() && (#[trigger] steps[k]).0@ == p by {
                let k = choose|k: int| before.holds(p, k);
                assert(steps[k].0@ == p);
            }
        }
        steps
    }

    /// Whether a profile has no child on its way or ready.
    pub fn is_stopped(&self, profile: &str) -> (res: bool)
        requires
            self.wf(),
        ensures
            res == !(self@.contains_key(profile@) && self@[profile@].snapshot.alive()),
    {
        match self.snapshot(profile) {
            Some(snapshot) => match &snapshot.state {
                ChildState::Starting => false,
                ChildState::Ready => false,
                _ => true,
            },
            None => true,
        }
    }
}

/// What one who waits for a child learns from its snapshot: nothing while it
/// is on its way. `closed` tells that no further snapshot will come.
pub fn wait_outcome(profile: &str, snapshot: &ChildSnapshot, closed: bool) -> (res: Option<
    Result<ChildHandle, Error>,
>)
    requires
        snapshot@.wf(profile@),
    ensures
        match snapshot@.state {
            ChildStateView::Ready => res matches Some(Ok(handle)) && Some(handle@)
                == snapshot@.handle,
            ChildStateView::Failed(m) => res matches Some(Err(e)) && e@ == ErrorView::Failed(
                profile@,
                m,
            ),
            ChildStateView::Exited(code) => res matches Some(Err(e)) && e@ == ErrorView::Exited(
                profile@,
                code,
            ),
            ChildStateView::Starting => if closed {
                res matches Some(Err(e)) && e@ == ErrorView::Closed(profile@)
            } else {
                res is None
            },
        },
{
    match &snapshot.state {
        ChildState::Ready => Some(Ok(ready_handle(snapshot.clone()))),
        ChildState::Failed(m) => Some(Err(Error::Failed(profile.to_owned(), m.clone()))),
        ChildState::Exited(code) => Some(Err(Error::Exited(profile.to_owned(), *code))),
        ChildState::Starting => if closed {
            Some(Err(Error::Closed(profile.to_owned())))
        } else {
            None
        },
    }
}

/// A step keeps the profile, and a child has a handle exactly where it is
/// ready.
pub proof fn law_step_keeps_handle(run: ChildRunView, input: RunInputView)
    requires
        run.snapshot.wf(run.profile),
    ensures
        run.step(input).0.profile == run.profile,
        run.step(input).0.snapshot.wf(run.profile),
{
}

/// The published snapshots tell the state of the run: a step that publishes
/// none leaves it as it was.
pub proof fn law_every_change_is_published(run: ChildRunView, input: RunInputView)
    ensures
        run.step(input).0.snapshot != run.snapshot ==> run.step(input).1.update is Some,
        run.step(input).1.update is Some ==> run.step(input).1.update->0 == run.step(
            input,
        ).0.snapshot,
{
}

/// A run that is over stays so, and publishes nothing more.
pub proof fn law_over_for_good(run: ChildRunView, input: RunInputView)
    requires
        run.phase == RunPhase::Over,
    ensures
        run.step(input).0 == run,
        run.step(input).1.update is None,
        run.step(input).1.action == RunAction::Wait,
{
}

/// A child that was told to stop ends as exited with its code, whether it went
/// in time or had to be killed.
pub proof fn law_stopping_ends_in_exited(
    run: ChildRunView,
    status: ExitReport,
    in_time: bool,
)
    requires
        run.phase == RunPhase::Running || run.phase is AwaitingPort,
    ensures
        ({
            let told = run.step(RunInputView::Stop).0;
            let last = if in_time {
                told
            } else {
                told.step(RunInputView::GraceExpired).0
            };
            &&& run.step(RunInputView::Stop).1.action == RunAction::Terminate
            &&& !in_time ==> told.step(RunInputView::GraceExpired).1.action == RunAction::Kill
            &&& last.step(RunInputView::Ended(status)).0.snapshot == ChildSnapshotView::exited(
                code_of(status),
            )
        }),
{
}

/// A child that was told to stop while it was being started is stopped as soon
/// as it has been.
pub proof fn law_early_stop_is_kept(run: ChildRunView, pid: u32)
    requires
        run.phase is Spawning,
    ensures
        ({
            let told = run.step(RunInputView::Stop).0;
            let begun = told.step(
                RunInputView::Spawned { pid: Some(pid), has_stdout: true, has_stdin: true },
            );
            &&& told.snapshot == run.snapshot
            &&& begun.0.phase == (RunPhase::Stopping { used: false })
            &&& begun.1.action == RunAction::Terminate
        }),
{
}

/// A child that ends without being told to has failed.
pub proof fn law_spontaneous_end_is_failure(run: ChildRunView, status: ExitReport)
    requires
        run.phase == RunPhase::Running || run.phase is AwaitingPort,
    ensures
        run.step(RunInputView::Ended(status)).0.snapshot.state is Failed,
{
}

/// A child that is ready stays ready until it is stopped or ends.
pub proof fn law_ready_until_over(run: ChildRunView, input: RunInputView)
    requires
        run.snapshot.state == ChildStateView::Ready,
        run.phase == RunPhase::Running || run.phase is Stopping || run.phase is Killing,
    ensures
        run.step(input).0.snapshot == run.snapshot || run.step(input).0.phase == RunPhase::Over,
{
}

/// A child that has failed or ended is started anew when it is asked for, and
/// one that is on its way or ready is left as it is.
pub proof fn law_restart(runs: Runs, profile: Seq<char>)
    requires
        runs.contains_key(profile),
    ensures
        !runs[profile].snapshot.alive() ==> ensured(runs, profile)[profile]
            == ChildRunView::initial(profile),
        runs[profile].snapshot.alive() ==> ensured(runs, profile) == runs,
        ensured(ensured(runs, profile), profile) == ensured(runs, profile),
{
}

/// What is done with one profile's child does not touch another's.
pub proof fn law_profiles_are_independent(
    runs: Runs,
    profile: Seq<char>,
    other: Seq<char>,
    input: RunInputView,
)
    requires
        profile != other,
        runs.contains_key(profile),
    ensures
        runs.insert(profile, runs[profile].step(input).0).contains_key(other)
            == runs.contains_key(other),
        runs.contains_key(other) ==> runs.insert(profile, runs[profile].step(input).0)[other]
            == runs[other],
        runs.contains_key(other) ==> ensured(runs, profile)[other] == runs[other],
{
}

/// A child that is started and names its port is ready: with the id of its
/// process, the port that it named and its profile. Until then it is starting.
pub proof fn law_child_becomes_ready(profile: Seq<char>, pid: u32, line: Seq<char>, port: nat)
    requires
        port_value(trimmed(line)) == Some(port),
        port <= u16::MAX,
    ensures
        ({
            let run = ChildRunView::initial(profile);
            let (begun, first) = run.step(
                RunInputView::Spawned { pid: Some(pid), has_stdout: true, has_stdin: true },
            );
            let (ready, second) = begun.step(RunInputView::Line(Some(line)));
            let snapshot = ChildSnapshotView {
                handle: Some(ChildHandleView { pid, port: port as u16, profile }),
                state: ChildStateView::Ready,
            };
            &&& run.snapshot.state == ChildStateView::Starting && run.snapshot.handle is None
            &&& begun.snapshot == run.snapshot && first.update is None
            &&& first.action == RunAction::Watch
            &&& ready.snapshot == snapshot && second.update == Some(snapshot)
            &&& second.stdio == Some(true) && second.action == RunAction::Watch
            &&& ready.phase == RunPhase::Running && ready.profile == profile
        }),
{
}

/// A child that cannot be started, or ends or fails before it has named a port,
/// has failed, and the words say of what.
pub proof fn law_failed_start(
    run: ChildRunView,
    pid: u32,
    has_stdin: bool,
    line: Seq<char>,
    status: ExitReport,
    error: Seq<char>,
)
    ensures
        run.phase is Spawning ==> {
            let refused = run.step(RunInputView::SpawnFailed(error)).0;
            let mute = run.step(
                RunInputView::Spawned { pid: Some(pid), has_stdout: false, has_stdin },
            ).0;
            let deaf = run.step(
                RunInputView::Spawned { pid: Some(pid), has_stdout: true, has_stdin: false },
            ).0;
            let (nameless, reap) = run.step(
                RunInputView::Spawned { pid: None, has_stdout: true, has_stdin },
            );
            &&& over_with(refused, error)
            &&& over_with(mute, "child stdout was not piped"@)
            &&& over_with(deaf, "child stdin was not piped"@)
            &&& reap.action == RunAction::Reap
            &&& over_with(
                nameless.step(RunInputView::Reaped).0,
                "child pid unavailable after spawn"@,
            )
        },
        run.phase is AwaitingPort ==> {
            &&& over_with(
                run.step(RunInputView::Line(None)).0,
                "child closed stdout before reporting a port"@,
            )
            &&& over_with(
                run.step(RunInputView::ReadFailed(error)).0,
                "failed reading child stdout: "@ + error,
            )
            &&& over_with(
                run.step(RunInputView::WaitFailed(error)).0,
                "failed waiting for child: "@ + error,
            )
            &&& over_with(
                run.step(RunInputView::Ended(status)).0,
                "process exited before reporting a port ("@ + status_words(status) + ")"@,
            )
            &&& port_value(trimmed(line)) is None ==> over_with(
                run.step(RunInputView::Line(Some(line))).0,
                "invalid port `"@ + line + "`: "@ + port_error(trimmed(line)),
            )
        },
        run.phase == RunPhase::Running ==> {
            &&& over_with(
                run.step(RunInputView::Ended(status)).0,
                "process exited unexpectedly ("@ + status_words(status) + ")"@,
            )
            &&& over_with(
                run.step(RunInputView::WaitFailed(error)).0,
                "failed waiting for child: "@ + error,
            )
        },
        run.phase is Stopping ==> {
            &&& over_with(
                run.step(RunInputView::SignalFailed(error)).0,
                "failed stopping child: "@ + error,
            )
            &&& over_with(
                run.step(RunInputView::WaitFailed(error)).0,
                "failed stopping child: "@ + error,
            )
        },
        run.phase is Killing ==> over_with(
            run.step(RunInputView::WaitFailed(error)).0,
            "failed stopping child: "@ + error,
        ),
{
}

/// A run is over, and its child has failed with these words.
pub open spec fn over_with(run: ChildRunView, words: Seq<char>) -> bool {
    &&& run.phase == RunPhase::Over
    &&& run.snapshot.handle is None
    &&& run.snapshot.state == ChildStateView::Failed(words)
}

/// A child that was told to stop is over once it has ended, without a handle
/// and with the number of how it ended: its exit code, or the negative of the
/// signal that ended it, or -1. The way to talk to it goes with it.
pub proof fn law_stopped_child_is_over(run: ChildRunView, status: ExitReport)
    requires
        run.phase is Stopping || run.phase is Killing,
    ensures
        ({
            let (next, out) = run.step(RunInputView::Ended(status));
            let used = if run.phase is Stopping {
                run.phase->Stopping_used
            } else {
                run.phase->Killing_used
            };
            &&& next.phase == RunPhase::Over && next.snapshot.handle is None
            &&& out.action == RunAction::Finish && out.update == Some(next.snapshot)
            &&& next.snapshot.state matches ChildStateView::Exited(code)
            &&& status.code matches Some(given) ==> code == given
            &&& status.code is None && status.signal is Some ==> code == -(status.signal->0 as int)
            &&& status.code is None && status.signal is None ==> code == -1
            &&& used ==> out.stdio == Some(false)
            &&& !used ==> out.stdio is None
        }),
{
}

/// A child that was in use and is told to stop is told so in a way that tells
/// later that it was; one that was not ready yet is not.
pub proof fn law_stop_remembers_use(run: ChildRunView)
    ensures
        run.phase == RunPhase::Running ==> run.step(RunInputView::Stop).0.phase == (
        RunPhase::Stopping { used: true }),
        run.phase is AwaitingPort ==> run.step(RunInputView::Stop).0.phase == (RunPhase::Stopping {
            used: false,
        }),
        run.phase is Stopping ==> run.step(RunInputView::GraceExpired).0.phase == (
        RunPhase::Killing { used: run.phase->Stopping_used }),
        run.step(RunInputView::Stop).0.snapshot == run.snapshot,
{
}

/// What is not awaited leaves a child as it is: further output of one in use, a
/// second order to stop, the expiry of a time that nobody waits for.
pub proof fn law_unawaited_is_ignored(run: ChildRunView, line: Option<Seq<char>>)
    ensures
        run.phase == RunPhase::Running ==> run.step(RunInputView::Line(line)).0 == run,
        run.phase is Stopping || run.phase is Killing ==> run.step(RunInputView::Stop).0 == run,
        !(run.phase is Stopping) ==> run.step(RunInputView::GraceExpired).0 == run,
        run.phase is Stopping || run.phase is Killing ==> run.step(RunInputView::Abandoned).0
            == run,
{
}

/// A profile without a child gets one that is starting.
pub proof fn law_unknown_profile_is_started(runs: Runs, profile: Seq<char>)
    requires
        !runs.contains_key(profile),
    ensures
        ensured(runs, profile).contains_key(profile),
        ensured(runs, profile)[profile].profile == profile,
        ensured(runs, profile)[profile].snapshot.state == ChildStateView::Starting,
        ensured(runs, profile)[profile].snapshot.handle is None,
        ensured(runs, profile)[profile].phase == (RunPhase::Spawning { stop: false }),
{
}

/// A child is alive while it is starting or ready, and not once it has failed or
/// ended.
pub proof fn law_alive(snapshot: ChildSnapshotView)
    ensures
        snapshot.alive() == match snapshot.state {
            ChildStateView::Starting => true,
            ChildStateView::Ready => true,
            ChildStateView::Failed(_) => false,
            ChildStateView::Exited(_) => false,
        },
{
}

/// When all children are told to stop, every one is, and none is forgotten: one
/// that runs is ended, and one that is being started will be.
pub proof fn law_all_are_told(runs: Runs, profile: Seq<char>)
    ensures
        all_told(runs).contains_key(profile) == runs.contains_key(profile),
        runs.contains_key(profile) ==> {
            let before = runs[profile];
            let after = all_told(runs)[profile];
            &&& before.phase == RunPhase::Running || before.phase is AwaitingPort ==> after.phase
                is Stopping
            &&& before.phase is Spawning ==> after.phase == (RunPhase::Spawning { stop: true })
            &&& before.phase == RunPhase::Over ==> after == before
            &&& after.snapshot == before.snapshot && after.profile == before.profile
        },
{
}

/// How a process ended is put in words by its code, or else by its signal.
pub proof fn law_status_words(status: ExitReport)
    ensures
        status.code matches Some(code) ==> status_words(status) == "exit code "@ + signed_decimal(
            code as int,
        ),
        status.code is None && status.signal is Some ==> status_words(status) == "signal "@
            + decimal(status.signal->0 as nat),
        status.code is None && status.signal is None ==> status_words(status)
            == "unknown status"@,
{
}

} // verus!
