//! What the orchestrator records about a registered backend.

use vstd::prelude::*;
use crate::error::DiscoveryError;
use crate::identity::BackendId;
use crate::lifecycle::{failure, failure_of, next_state, step, LifecycleEvent, LifecycleState};

verus! {

/// The operations a backend declares, or the ones asked of it.
#[derive(Debug, Clone, Copy, PartialEq, Eq, Structural)]
pub struct Capabilities {
    /// Discovery: the backend can scan for peers.
    pub can_scan: bool,
    /// Advertising: the backend can broadcast its own presence.
    pub can_advertise: bool,
}

impl Capabilities {
    /// Whether every operation in `roles` is among these capabilities.
    pub open spec fn covers(self, roles: Capabilities) -> bool {
        &&& roles.can_scan ==> self.can_scan
        &&& roles.can_advertise ==> self.can_advertise
    }

    /// Scanning only.
    pub fn scan_only() -> (r: Capabilities)
        ensures
            r == (Capabilities { can_scan: true, can_advertise: false }),
    {
        Capabilities { can_scan: true, can_advertise: false }
    }

    /// Advertising only.
    pub fn advertise_only() -> (r: Capabilities)
        ensures
            r == (Capabilities { can_scan: false, can_advertise: true }),
    {
        Capabilities { can_scan: false, can_advertise: true }
    }

    /// Scanning and advertising.
    pub fn both() -> (r: Capabilities)
        ensures
            r == (Capabilities { can_scan: true, can_advertise: true }),
    {
        Capabilities { can_scan: true, can_advertise: true }
    }

    /// Executable form of [`Capabilities::covers`].
    pub fn supports(&self, roles: &Capabilities) -> (r: bool)
        ensures
            r == self.covers(*roles),
    {
        (!roles.can_scan || self.can_scan) && (!roles.can_advertise || self.can_advertise)
    }
}

/// The orchestrator's record of one backend.
#[derive(Debug, Clone, Copy, PartialEq, Eq)]
pub struct BackendRecord {
    /// The number the backend was registered under.
    pub id: BackendId,
    /// The operations the backend declares.
    pub declared: Capabilities,
    /// The operations the orchestrator runs on it.
    pub roles: Capabilities,
    /// Where the backend stands in its lifecycle.
    pub state: LifecycleState,
    /// The failure of the last operation, if it failed.
    pub last_error: Option<DiscoveryError>,
    /// Whether the backend was given up while stopping, its resources
    /// possibly still held by the platform.
    pub leaked: bool,
}

impl BackendRecord {
    /// The record of a backend that was just registered.
    pub open spec fn registered(
        id: BackendId,
        declared: Capabilities,
        roles: Capabilities,
    ) -> BackendRecord {
        BackendRecord {
            id,
            declared,
            roles,
            state: LifecycleState::Idle,
            last_error: None,
            leaked: false,
        }
    }

    /// Whether the backend produces sightings.
    pub open spec fn scanning(self) -> bool {
        self.state is Scanning && self.roles.can_scan
    }

    /// Whether the backend advertises.
    pub open spec fn broadcasting(self) -> bool {
        self.state is Scanning && self.roles.can_advertise
    }

    /// Whether the record may be dropped and the backend's resources
    /// released: never while an operation runs or is being started or
    /// stopped.
    pub open spec fn releasable(self) -> bool {
        !self.state.engaged()
    }

    /// The record after `event`, with `error` as the failure to note where
    /// the event is a failure. An event without meaning in the record's
    /// state changes nothing.
    pub open spec fn after(self, event: LifecycleEvent, error: Option<DiscoveryError>) -> BackendRecord {
        match next_state(self.state, event) {
            Some(next) => BackendRecord {
                id: self.id,
                declared: self.declared,
                roles: self.roles,
                state: next,
                last_error: if event is StartRequested || event is StopRequested {
                    self.last_error
                } else if failure_of(event) is Some && error is Some {
                    error
                } else {
                    failure_of(event)
                },
                leaked: self.leaked || (self.state is Stopping && event is TimedOut),
            },
            None => self,
        }
    }

    /// Executable form of [`BackendRecord::registered`].
    pub fn new(id: BackendId, declared: Capabilities, roles: Capabilities) -> (r: BackendRecord)
        ensures
            r == BackendRecord::registered(id, declared, roles),
    {
        BackendRecord {
            id,
            declared,
            roles,
            state: LifecycleState::Idle,
            last_error: None,
            leaked: false,
        }
    }

    /// Executable form of [`BackendRecord::scanning`].
    pub fn is_scanning(&self) -> (r: bool)
        ensures
            r == self.scanning(),
    {
        self.state == LifecycleState::Scanning && self.roles.can_scan
    }

    /// Executable form of [`BackendRecord::broadcasting`].
    pub fn is_broadcasting(&self) -> (r: bool)
        ensures
            r == self.broadcasting(),
    {
        self.state == LifecycleState::Scanning && self.roles.can_advertise
    }

    /// Executable form of [`BackendRecord::releasable`].
    pub fn may_release(&self) -> (r: bool)
        ensures
            r == self.releasable(),
    {
        !self.state.is_engaged()
    }

    /// Applies `event` to the record and says whether it had a meaning in
    /// the record's state.
    pub fn apply(&mut self, event: LifecycleEvent, error: Option<DiscoveryError>) -> (r: bool)
        ensures
            *final(self) == old(self).after(event, error),
            r == (next_state(old(self).state, event) is Some),
    {
        match step(self.state, event) {
            Some(next) => {
                let noted = failure(event);
                let stopping = self.state == LifecycleState::Stopping;
                let timed_out = event == LifecycleEvent::TimedOut;
                let requested = event == LifecycleEvent::StartRequested || event
                    == LifecycleEvent::StopRequested;
                if !requested {
                    if noted.is_some() && error.is_some() {
                        self.last_error = error;
                    } else {
                        self.last_error = noted;
                    }
                }
                if stopping && timed_out {
                    self.leaked = true;
                }
                self.state = next;
                true
            },
            None => false,
        }
    }
}

} // verus!
