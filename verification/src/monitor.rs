//! The change monitor: a watcher that compares change tokens and tells the
//! caller when the registered handler is due.
//!
//! The monitor never carries content. The handler is due once for every
//! change of the token that the monitor sees while it runs, and never once
//! it has been stopped.

use vstd::prelude::*;
use crate::error::ClipboardError;

verus! {

/// Where a monitor stands in its life.
#[derive(Debug, Clone, Copy, PartialEq, Eq, Structural)]
pub enum MonitorState {
    /// Created, not watching yet.
    Idle,
    /// Watching.
    Running,
    /// Stopped for good.
    Stopped,
}

/// How the attempt to install the native watch ended.
#[derive(Debug, Clone, Copy, PartialEq, Eq, Structural)]
pub enum WatchInstall {
    /// The watch is in place and the handler is registered.
    Installed,
    /// The watch could not be created.
    CreationFailed,
    /// The watch exists but the handler could not be registered.
    RegistrationFailed,
}

/// The mathematical value of a monitor.
pub struct MonitorModel {
    pub state: MonitorState,
    pub last: u64,
}

impl MonitorModel {
    /// Whether a sample that reads `token` makes the handler due.
    pub open spec fn notices(self, token: u64) -> bool {
        self.state == MonitorState::Running && token != self.last
    }

    /// The monitor after a sample that read `token`.
    pub open spec fn after_sample(self, token: u64) -> MonitorModel {
        if self.notices(token) {
            MonitorModel { state: self.state, last: token }
        } else {
            self
        }
    }

    /// The monitor after an attempt to start it while the clipboard's token
    /// was `token`.
    pub open spec fn after_start(self, token: u64, install: WatchInstall) -> MonitorModel {
        if self.state == MonitorState::Idle && install == WatchInstall::Installed {
            MonitorModel { state: MonitorState::Running, last: token }
        } else {
            self
        }
    }

    /// The monitor after it was stopped.
    pub open spec fn after_stop(self) -> MonitorModel {
        MonitorModel { state: MonitorState::Stopped, last: self.last }
    }

    /// How often the handler is due over a run of samples.
    pub open spec fn notifications(self, tokens: Seq<u64>) -> nat
        decreases tokens.len(),
    {
        if tokens.len() == 0 {
            0
        } else {
            let first: nat = if self.notices(tokens[0]) {
                1
            } else {
                0
            };
            first + self.after_sample(tokens[0]).notifications(tokens.skip(1))
        }
    }
}

/// A watcher of the clipboard's change token.
#[derive(Debug)]
pub struct ChangeMonitor {
    state: MonitorState,
    last: u64,
}

impl View for ChangeMonitor {
    type V = MonitorModel;

    closed spec fn view(&self) -> MonitorModel {
        MonitorModel { state: self.state, last: self.last }
    }
}

impl ChangeMonitor {
    /// A monitor that is not watching yet.
    pub fn new() -> (out: ChangeMonitor)
        ensures
            out@ == (MonitorModel { state: MonitorState::Idle, last: 0 }),
    {
        ChangeMonitor { state: MonitorState::Idle, last: 0 }
    }

    /// Where the monitor stands.
    pub fn state(&self) -> (state: MonitorState)
        ensures
            state == self@.state,
    {
        self.state
    }

    /// Starts watching from the token `token`, given how the installation
    /// of the native watch ended. A failed installation is reported as
    /// `MonitorCreationFailed` or `HandlerRegistrationFailed`; a monitor
    /// that was started or stopped before cannot be started and reports
    /// `UnsupportedOperation`. A failed start changes nothing.
    pub fn start(&mut self, token: u64, install: WatchInstall) -> (out: Result<(), ClipboardError>)
        ensures
            final(self)@ == old(self)@.after_start(token, install),
            old(self)@.state != MonitorState::Idle ==> out == Err::<(), ClipboardError>(
                ClipboardError::UnsupportedOperation,
            ),
            old(self)@.state == MonitorState::Idle ==> out == (match install {
                WatchInstall::Installed => Ok::<(), ClipboardError>(()),
                WatchInstall::CreationFailed => Err::<(), ClipboardError>(
                    ClipboardError::MonitorCreationFailed,
                ),
                WatchInstall::RegistrationFailed => Err::<(), ClipboardError>(
                    ClipboardError::HandlerRegistrationFailed,
                ),
            }),
    {
        match self.state {
            MonitorState::Idle => match install {
                WatchInstall::Installed => {
                    self.state = MonitorState::Running;
                    self.last = token;
                    Ok(())
                },
                WatchInstall::CreationFailed => Err(ClipboardError::MonitorCreationFailed),
                WatchInstall::RegistrationFailed => Err(ClipboardError::HandlerRegistrationFailed),
            },
            _ => Err(ClipboardError::UnsupportedOperation),
        }
    }

    /// Takes one sample of the clipboard's token. The answer says whether
    /// the handler is due: it is when the monitor runs and the token
    /// differs from the one seen last.
    pub fn sample(&mut self, token: u64) -> (due: bool)
        ensures
            due == old(self)@.notices(token),
            final(self)@ == old(self)@.after_sample(token),
    {
        match self.state {
            MonitorState::Running => {
                if token != self.last {
                    self.last = token;
                    true
                } else {
                    false
                }
            },
            _ => false,
        }
    }

    /// Stops the monitor, whatever state it is in.
    pub fn stop(&mut self)
        ensures
            final(self)@ == old(self)@.after_stop(),
    {
        self.state = MonitorState::Stopped;
    }
}

/// A monitor that does not run notices nothing, however the token moves.
pub proof fn lemma_silent_unless_running(monitor: MonitorModel, tokens: Seq<u64>)
    requires
        monitor.state != MonitorState::Running,
    ensures
        monitor.notifications(tokens) == 0,
    decreases tokens.len(),
{
    if tokens.len() > 0 {
        lemma_silent_unless_running(monitor, tokens.skip(1));
    }
}

/// After `stop` the handler is never due again.
pub proof fn lemma_stop_silences(monitor: MonitorModel, tokens: Seq<u64>)
    ensures
        monitor.after_stop().notifications(tokens) == 0,
{
    lemma_silent_unless_running(monitor.after_stop(), tokens);
}

/// Samples that all read the token the monitor saw last make nothing due.
pub proof fn lemma_no_change_no_notification(monitor: MonitorModel, tokens: Seq<u64>)
    requires
        forall|i: int| 0 <= i < tokens.len() ==> tokens[i] == monitor.last,
    ensures
        monitor.notifications(tokens) == 0,
    decreases tokens.len(),
{
    if tokens.len() > 0 {
        assert(tokens[0] == monitor.last);
        assert forall|i: int| 0 <= i < tokens.skip(1).len() implies tokens.skip(1)[i]
            == monitor.last by {
            assert(tokens.skip(1)[i] == tokens[i + 1]);
        }
        lemma_no_change_no_notification(monitor, tokens.skip(1));
    }
}

/// One change, one call: a running monitor that started at one token and
/// then samples another token, however often, finds the handler due
/// exactly once.
pub proof fn lemma_one_change_one_notification(
    monitor: MonitorModel,
    start: u64,
    changed: u64,
    tokens: Seq<u64>,
)
    requires
        monitor.state == MonitorState::Idle,
        start != changed,
        tokens.len() >= 1,
        forall|i: int| 0 <= i < tokens.len() ==> tokens[i] == changed,
    ensures
        monitor.after_start(start, WatchInstall::Installed).notifications(tokens) == 1,
{
    let running = monitor.after_start(start, WatchInstall::Installed);
    assert(tokens[0] == changed);
    assert(running.notices(tokens[0]));
    let seen = running.after_sample(tokens[0]);
    assert forall|i: int| 0 <= i < tokens.skip(1).len() implies tokens.skip(1)[i] == seen.last by {
        assert(tokens.skip(1)[i] == tokens[i + 1]);
    }
    lemma_no_change_no_notification(seen, tokens.skip(1));
}

} // verus!
