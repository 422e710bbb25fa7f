//! The discovery bridge: the state machine of an mDNS discovery session.
//!
//! The blocking service-discovery loop itself runs outside this library on
//! a background execution context; everything it must decide — whether a
//! session may start, when the poll loop exits, what a teardown sends, and
//! what the first delivered item means — is decided here, on plain values.

use vstd::prelude::*;
use vstd::string::StringExecFns;
use crate::error::Error;

verus! {

/// A device found on the local network: its advertised service name and
/// the resolved address to reach it at.
#[derive(Debug, Clone, PartialEq)]
pub struct DiscoveredBluOSDevice {
    pub name: String,
    pub hostname: String,
    pub port: u16,
}

/// The lifecycle of one discovery session.
#[derive(Debug, Clone, Copy, PartialEq, Eq, Structural)]
pub enum DiscoveryState {
    /// No session is running.
    Idle,
    /// A background poller is running and a cancellation handle is held.
    Running,
}

/// What the poll loop hears from the cancellation channel on one
/// iteration.
#[derive(Debug, Clone, Copy, PartialEq, Eq, Structural)]
pub enum CancelSignal {
    /// A cancellation was sent.
    Cancelled,
    /// Nothing was sent yet.
    Empty,
    /// The sending side is gone.
    Disconnected,
}

/// What the poll loop does next: poll once more, or exit at this poll
/// boundary.
#[derive(Debug, Clone, Copy, PartialEq, Eq, Structural)]
pub enum PollAction {
    Continue,
    Exit,
}

/// The discovery bridge. It owns at most one running session; starting it
/// again while one runs is refused, and teardown cancels the running
/// session exactly once.
pub struct Discovery {
    state: DiscoveryState,
}

impl View for Discovery {
    type V = DiscoveryState;

    closed spec fn view(&self) -> DiscoveryState {
        self.state
    }
}

impl Discovery {
    /// A bridge with no running session.
    pub fn new() -> (r: Discovery)
        ensures
            r@ == DiscoveryState::Idle,
    {
        Discovery { state: DiscoveryState::Idle }
    }

    /// True while a session is running.
    pub fn is_running(&self) -> (r: bool)
        ensures
            r == (self@ == DiscoveryState::Running),
    {
        match self.state {
            DiscoveryState::Running => true,
            DiscoveryState::Idle => false,
        }
    }

    /// Claims the bridge for a new session: fails with
    /// [`Error::AlreadyDiscovering`] — changing nothing, so no second
    /// poller can start — while a session is running, and moves to Running
    /// otherwise. The caller spawns the background poller only on `Ok`.
    pub fn start_session(&mut self) -> (r: Result<(), Error>)
        ensures
            old(self)@ == DiscoveryState::Running ==> r == Result::<(), Error>::Err(
                Error::AlreadyDiscovering,
            ) && final(self)@ == DiscoveryState::Running,
            old(self)@ == DiscoveryState::Idle ==> r == Result::<(), Error>::Ok(())
                && final(self)@ == DiscoveryState::Running,
    {
        match self.state {
            DiscoveryState::Running => Err(Error::AlreadyDiscovering),
            DiscoveryState::Idle => {
                self.state = DiscoveryState::Running;
                Ok(())
            },
        }
    }

    /// Tears the bridge down: reports whether a cancellation must be sent.
    /// It is true exactly on the first teardown of a running session —
    /// afterwards the bridge is Idle, so tearing down again sends nothing.
    pub fn take_cancellation(&mut self) -> (r: bool)
        ensures
            r == (old(self)@ == DiscoveryState::Running),
            final(self)@ == DiscoveryState::Idle,
    {
        let was_running = self.is_running();
        self.state = DiscoveryState::Idle;
        was_running
    }

    /// What the poll loop does after hearing the cancellation channel: it
    /// keeps polling only while the channel is silent, and exits at this
    /// poll boundary on a cancellation or a vanished sender.
    pub fn poll_step(signal: CancelSignal) -> (r: PollAction)
        ensures
            r == PollAction::Continue <==> signal == CancelSignal::Empty,
    {
        match signal {
            CancelSignal::Empty => PollAction::Continue,
            CancelSignal::Cancelled => PollAction::Exit,
            CancelSignal::Disconnected => PollAction::Exit,
        }
    }

    /// What the first item off the delivery queue means for
    /// `discover_one`: the first discovered device is the answer, and a
    /// queue closed before any item is [`Error::NoBluOSError`].
    pub fn first_discovered(
        first: Option<DiscoveredBluOSDevice>,
    ) -> (r: Result<DiscoveredBluOSDevice, Error>)
        ensures
            match first {
                Some(d) => r == Result::<DiscoveredBluOSDevice, Error>::Ok(d),
                None => r == Result::<DiscoveredBluOSDevice, Error>::Err(Error::NoBluOSError),
            },
    {
        match first {
            Some(d) => Ok(d),
            None => Err(Error::NoBluOSError),
        }
    }
}

/// Tearing a bridge down twice sends exactly one cancellation: the first
/// teardown of a running session reports one, and a second teardown,
/// whatever came before, reports none.
pub proof fn lemma_teardown_idempotent(st: DiscoveryState)
    ensures
        teardown_sends(st) == (st == DiscoveryState::Running),
        !teardown_sends(teardown_state(st)),
{
}

/// Whether a teardown from state `st` sends a cancellation.
pub open spec fn teardown_sends(st: DiscoveryState) -> bool {
    st == DiscoveryState::Running
}

/// The state a teardown leaves behind.
pub open spec fn teardown_state(st: DiscoveryState) -> DiscoveryState {
    DiscoveryState::Idle
}

/// Starting a session twice without a teardown fails the second time and
/// leaves the bridge running the first session: two pollers never run at
/// once.
pub proof fn lemma_no_second_session(st: DiscoveryState)
    requires
        start_grants(st),
    ensures
        !start_grants(start_state(st)),
        start_state(start_state(st)) == DiscoveryState::Running,
{
}

/// Whether starting a session from state `st` is granted.
pub open spec fn start_grants(st: DiscoveryState) -> bool {
    st == DiscoveryState::Idle
}

/// The state after asking to start a session: running either way.
pub open spec fn start_state(st: DiscoveryState) -> DiscoveryState {
    DiscoveryState::Running
}

} // verus!
