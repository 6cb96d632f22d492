//! Lifecycle of one service handle: Created, then Running, then Stopped.
//! The caller performs the work that each transition asks for (serving,
//! sending the shutdown signal).
use vstd::prelude::*;

verus! {

#[derive(Clone, Copy, Debug, PartialEq, Eq, Structural)]
pub enum ServiceState {
    Created,
    Running,
    Stopped,
}

/// Whether a start request with these arguments begins serving.
pub open spec fn start_serves(s: ServiceState, handle_present: bool, callbacks_present: bool) -> bool {
    handle_present && callbacks_present && s == ServiceState::Created
}

/// State after a start request.
pub open spec fn state_after_start(s: ServiceState, handle_present: bool, callbacks_present: bool) -> ServiceState {
    if start_serves(s, handle_present, callbacks_present) {
        ServiceState::Running
    } else {
        s
    }
}

/// State of one service handle.
pub struct Lifecycle {
    state: ServiceState,
}

impl View for Lifecycle {
    type V = ServiceState;

    closed spec fn view(&self) -> ServiceState {
        self.state
    }
}

impl Lifecycle {
    /// A handle that has not been started.
    pub fn new() -> (r: Lifecycle)
        ensures
            r@ == ServiceState::Created,
    {
        Lifecycle { state: ServiceState::Created }
    }

    pub fn state(&self) -> (r: ServiceState)
        ensures
            r == self@,
    {
        self.state
    }

    /// Asks to start serving; tells whether the caller should serve now. A
    /// missing handle or callback pair, or a handle already started or
    /// stopped, declines without any change.
    pub fn start(&mut self, handle_present: bool, callbacks_present: bool) -> (serve: bool)
        ensures
            serve == start_serves(old(self)@, handle_present, callbacks_present),
            final(self)@ == state_after_start(old(self)@, handle_present, callbacks_present),
    {
        if handle_present && callbacks_present && self.state == ServiceState::Created {
            self.state = ServiceState::Running;
            true
        } else {
            false
        }
    }

    /// Records that shutdown was requested; the caller sends the shutdown
    /// signal in every state, so stopping a handle never started completes.
    pub fn stop(&mut self)
        ensures
            final(self)@ == ServiceState::Stopped,
    {
        self.state = ServiceState::Stopped;
    }

    /// Whether the service accepts requests.
    pub fn accepts_requests(&self) -> (r: bool)
        ensures
            r == (self@ == ServiceState::Running),
    {
        self.state == ServiceState::Running
    }
}

/// Once stopped, a handle accepts no requests and no later start serves.
pub proof fn lemma_stopped_is_final(handle_present: bool, callbacks_present: bool)
    ensures
        !start_serves(ServiceState::Stopped, handle_present, callbacks_present),
        state_after_start(ServiceState::Stopped, handle_present, callbacks_present)
            == ServiceState::Stopped,
{
}

} // verus!
