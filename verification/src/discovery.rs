//! Discovery events and the contracts that every transport backend meets.
//!
//! A backend keeps the books of its transport: whether it scans, whether it
//! advertises, which events it has produced. Its driver performs the
//! platform calls that the backend's answers ask for.

use vstd::prelude::*;
use crate::error::DiscoveryError;
use crate::identity::{PeerInfo, PeerInfoView};

verus! {

/// Mathematical value of a [`DiscoveryEvent`].
pub enum DiscoveryEventView {
    PeerDiscovered(PeerInfoView),
    PeerLost(PeerInfoView),
}

/// A peer came into view, or went out of it.
#[derive(Debug, Clone, PartialEq, Eq)]
pub enum DiscoveryEvent {
    PeerDiscovered(PeerInfo),
    PeerLost(PeerInfo),
}

impl View for DiscoveryEvent {
    type V = DiscoveryEventView;

    open spec fn view(&self) -> DiscoveryEventView {
        match self {
            DiscoveryEvent::PeerDiscovered(p) => DiscoveryEventView::PeerDiscovered(p@),
            DiscoveryEvent::PeerLost(p) => DiscoveryEventView::PeerLost(p@),
        }
    }
}

impl DiscoveryEventView {
    /// The peer the event is about.
    pub open spec fn peer(self) -> PeerInfoView {
        match self {
            DiscoveryEventView::PeerDiscovered(p) => p,
            DiscoveryEventView::PeerLost(p) => p,
        }
    }
}

impl DiscoveryEvent {
    /// The peer the event is about.
    pub fn peer(&self) -> (r: &PeerInfo)
        ensures
            r@ == self@.peer(),
    {
        match self {
            DiscoveryEvent::PeerDiscovered(p) => p,
            DiscoveryEvent::PeerLost(p) => p,
        }
    }

    /// Whether the event announces a peer.
    pub fn is_discovered(&self) -> (r: bool)
        ensures
            r == (self@ is PeerDiscovered),
    {
        match self {
            DiscoveryEvent::PeerDiscovered(_) => true,
            DiscoveryEvent::PeerLost(_) => false,
        }
    }

    /// Whether the event reports the loss of a peer.
    pub fn is_lost(&self) -> (r: bool)
        ensures
            r == (self@ is PeerLost),
    {
        match self {
            DiscoveryEvent::PeerDiscovered(_) => false,
            DiscoveryEvent::PeerLost(_) => true,
        }
    }

    /// An independent copy with the same value.
    pub fn duplicate(&self) -> (r: DiscoveryEvent)
        ensures
            r@ == self@,
    {
        match self {
            DiscoveryEvent::PeerDiscovered(p) => DiscoveryEvent::PeerDiscovered(p.duplicate()),
            DiscoveryEvent::PeerLost(p) => DiscoveryEvent::PeerLost(p.duplicate()),
        }
    }
}

/// The values of a list of events, in order.
pub open spec fn event_views(events: Seq<DiscoveryEvent>) -> Seq<DiscoveryEventView> {
    events.map_values(|e: DiscoveryEvent| e@)
}

/// The value of an event that may be absent.
pub open spec fn optional_view(event: Option<DiscoveryEvent>) -> Option<DiscoveryEventView> {
    match event {
        Some(e) => Some(e@),
        None => None,
    }
}

/// The sequence of an event that may be absent: one event or none.
pub open spec fn at_most_one(event: Option<DiscoveryEventView>) -> Seq<DiscoveryEventView> {
    match event {
        Some(e) => seq![e],
        None => Seq::empty(),
    }
}

/// An error that knows its place in the taxonomy of failures.
pub trait Fault {
    /// The kind of failure this error is.
    spec fn kind(&self) -> DiscoveryError;

    /// Executable form of [`Fault::kind`].
    fn classify(&self) -> (r: DiscoveryError)
        ensures
            r == self.kind(),
    ;
}

/// Whether a lifecycle call changed anything.
#[derive(Debug, Clone, Copy, PartialEq, Eq, Structural)]
pub enum Transition {
    /// The backend changed state: the driver has to carry the operation
    /// out on the platform.
    Changed,
    /// The backend was already in the state asked for: nothing is to be
    /// done.
    Unchanged,
}

/// The discovery capability: the scan lifecycle and the production of
/// events.
pub trait Discovery {
    type Error: Fault;

    type DiscoveryEvent;

    /// Whether the backend is producing events.
    spec fn scanning(&self) -> bool;

    /// The events produced and not yet handed out, in the order of their
    /// production.
    spec fn backlog(&self) -> Seq<DiscoveryEventView>;

    /// Begins producing events. Idempotent: on a backend that is already
    /// scanning it succeeds and changes nothing, so that the event source
    /// is neither restarted nor doubled.
    fn start_scan(&mut self) -> (r: Result<Transition, Self::Error>)
        ensures
            old(self).scanning() ==> r is Ok,
            r is Ok ==> final(self).scanning(),
            r is Ok ==> (r->Ok_0 == Transition::Changed <==> !old(self).scanning()),
            r is Err ==> final(self).scanning() == old(self).scanning(),
            final(self).backlog() == old(self).backlog(),
    ;

    /// Ends the production of events. Idempotent, and safe on a backend
    /// that is not scanning.
    fn stop_scan(&mut self) -> (r: Result<Transition, Self::Error>)
        ensures
            !old(self).scanning() ==> r is Ok,
            r is Ok ==> !final(self).scanning(),
            r is Ok ==> (r->Ok_0 == Transition::Changed <==> old(self).scanning()),
            r is Err ==> final(self).scanning() == old(self).scanning(),
            final(self).backlog() == old(self).backlog(),
    ;

    /// Hands out the events produced since the last call, in the order of
    /// their production. The sequence has ended, and `None` says so, once
    /// the backend no longer scans and everything it produced was handed
    /// out.
    fn poll_events(&mut self) -> (r: Option<Vec<DiscoveryEvent>>)
        ensures
            r is None <==> !old(self).scanning() && old(self).backlog().len() == 0,
            r is Some ==> event_views(r->Some_0@) == old(self).backlog(),
            final(self).backlog() == Seq::<DiscoveryEventView>::empty(),
            final(self).scanning() == old(self).scanning(),
    ;
}

/// The advertiser capability: the broadcast lifecycle.
pub trait Advertiser {
    type Error: Fault;

    /// Whether the backend has the means to advertise.
    spec fn advertises(&self) -> bool;

    /// Whether the backend is broadcasting.
    spec fn broadcasting(&self) -> bool;

    /// Begins broadcasting. A backend without the means to advertise fails
    /// with `CapabilityUnsupported` and changes nothing: it never reports a
    /// success that has no effect. Idempotent otherwise.
    fn broadcast(&mut self) -> (r: Result<Transition, Self::Error>)
        ensures
            !old(self).advertises() ==> r is Err && r->Err_0.kind()
                == DiscoveryError::CapabilityUnsupported,
            old(self).advertises() && old(self).broadcasting() ==> r is Ok,
            r is Ok ==> final(self).broadcasting(),
            r is Ok ==> (r->Ok_0 == Transition::Changed <==> !old(self).broadcasting()),
            r is Err ==> final(self).broadcasting() == old(self).broadcasting(),
            final(self).advertises() == old(self).advertises(),
    ;

    /// Ends broadcasting. A backend without the means to advertise fails
    /// with `CapabilityUnsupported`. Idempotent otherwise.
    fn stop_broadcast(&mut self) -> (r: Result<Transition, Self::Error>)
        ensures
            !old(self).advertises() ==> r is Err && r->Err_0.kind()
                == DiscoveryError::CapabilityUnsupported,
            old(self).advertises() && !old(self).broadcasting() ==> r is Ok,
            r is Ok ==> !final(self).broadcasting(),
            r is Ok ==> (r->Ok_0 == Transition::Changed <==> old(self).broadcasting()),
            r is Err ==> final(self).broadcasting() == old(self).broadcasting(),
            final(self).advertises() == old(self).advertises(),
    ;
}

/// A backend with both capabilities.
pub trait DiscoveryAdvertiser: Discovery + Advertiser {

}

} // verus!
