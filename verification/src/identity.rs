//! Peer identity and the record of a sighting.

use vstd::prelude::*;

verus! {

/// Number the orchestrator hands to a backend when it is registered.
pub type BackendId = usize;

/// Stable identity of a peer. Two sightings with equal identity refer to the
/// same physical peer.
pub type PeerId = String;

/// Mathematical value of a [`PeerInfo`].
pub struct PeerInfoView {
    pub id: Seq<char>,
    pub transports: Seq<BackendId>,
    pub last_seen: u64,
    pub signal: Option<i16>,
}

/// What is known about one peer: who it is, which transports currently
/// report it, when it was last seen, and how strong the last signal was.
#[derive(Debug, Clone, PartialEq, Eq)]
pub struct PeerInfo {
    pub id: PeerId,
    pub transports: Vec<BackendId>,
    pub last_seen: u64,
    pub signal: Option<i16>,
}

impl View for PeerInfo {
    type V = PeerInfoView;

    open spec fn view(&self) -> PeerInfoView {
        PeerInfoView {
            id: self.id@,
            transports: self.transports@,
            last_seen: self.last_seen,
            signal: self.signal,
        }
    }
}

/// A sighting is stale once `ttl` seconds have passed since it was last
/// refreshed. A clock that runs backwards never makes a sighting stale.
pub open spec fn is_stale(last_seen: u64, now: u64, ttl: u64) -> bool {
    now - last_seen >= ttl
}

/// Executable form of [`is_stale`].
pub fn stale(last_seen: u64, now: u64, ttl: u64) -> (r: bool)
    ensures
        r == is_stale(last_seen, now, ttl),
{
    now >= last_seen && now - last_seen >= ttl
}

/// Copies a list of backend ids.
pub fn copy_backends(v: &Vec<BackendId>) -> (r: Vec<BackendId>)
    ensures
        r@ == v@,
{
    let mut out: Vec<BackendId> = Vec::new();
    let mut i: usize = 0;
    while i < v.len()
        invariant
            i <= v.len(),
            out@ == v@.take(i as int),
        decreases v.len() - i,
    {
        out.push(v[i]);
        assert(v@.take(i + 1) =~= v@.take(i as int).push(v@[i as int]));
        i = i + 1;
    }
    assert(v@.take(v.len() as int) =~= v@);
    out
}

/// Whether `backend` occurs in `v`.
pub fn lists_backend(v: &Vec<BackendId>, backend: BackendId) -> (r: bool)
    ensures
        r == v@.contains(backend),
{
    let mut i: usize = 0;
    while i < v.len()
        invariant
            i <= v.len(),
            forall|k: int| 0 <= k < i ==> v@[k] != backend,
        decreases v.len() - i,
    {
        if v[i] == backend {
            return true;
        }
        i = i + 1;
    }
    false
}

impl PeerInfo {
    /// A sighting as a transport reports it: the identity and the signal
    /// strength, with no transport attributed and no time stamp yet.
    pub fn sighting(id: PeerId, signal: Option<i16>) -> (r: PeerInfo)
        ensures
            r@ == (PeerInfoView { id: id@, transports: Seq::empty(), last_seen: 0, signal }),
    {
        PeerInfo { id, transports: Vec::new(), last_seen: 0, signal }
    }

    /// Whether two records describe the same physical peer.
    pub fn same_peer(&self, other: &PeerInfo) -> (r: bool)
        ensures
            r == (self@.id == other@.id),
    {
        self.id == other.id
    }

    /// Whether `backend` is among the transports that report this peer.
    pub fn reported_by(&self, backend: BackendId) -> (r: bool)
        ensures
            r == self@.transports.contains(backend),
    {
        lists_backend(&self.transports, backend)
    }

    /// Whether the record is stale at `now` under a freshness window of
    /// `ttl` seconds.
    pub fn expired(&self, now: u64, ttl: u64) -> (r: bool)
        ensures
            r == is_stale(self@.last_seen, now, ttl),
    {
        stale(self.last_seen, now, ttl)
    }

    /// An independent copy with the same value.
    pub fn duplicate(&self) -> (r: PeerInfo)
        ensures
            r@ == self@,
    {
        PeerInfo {
            id: self.id.clone(),
            transports: copy_backends(&self.transports),
            last_seen: self.last_seen,
            signal: self.signal,
        }
    }
}

} // verus!
