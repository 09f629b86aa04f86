//! The Bluetooth Low Energy backend.
//!
//! `BleDiscovery` keeps the books of the backend: whether an advertising
//! peripheral is at hand, whether the central scans, whether the peripheral
//! broadcasts, and which sightings wait to be handed out. The platform
//! calls are the driver's.

use vstd::prelude::*;
use vstd::arithmetic::div_mod::lemma_basic_div;
use vstd::arithmetic::power2::{lemma2_to64, lemma_pow2_strictly_increases, pow2};
use crate::backend::Capabilities;
use crate::discovery::{
    event_views, optional_view, Advertiser, Discovery, DiscoveryAdvertiser, DiscoveryEvent,
    DiscoveryEventView, Fault, Transition,
};
use crate::error::DiscoveryError;
use crate::identity::{PeerId, PeerInfo, PeerInfoView};

verus! {

/// The service that the backend advertises: the 128-bit value of its UUID.
pub const SERVICE_UUID: u128 = 0x180D;

/// Byte `k` of a 128-bit value, counted from the least significant one.
pub open spec fn byte_at(value: u128, k: int) -> u8 {
    ((value as int / pow2((8 * k) as nat) as int) % 256) as u8
}

/// The sixteen bytes of a 128-bit value, most significant first.
pub open spec fn be_bytes(value: u128) -> Seq<u8> {
    Seq::new(16, |i: int| byte_at(value, 15 - i))
}

/// The bytes of the UUID that `uuid::Uuid::from_u128` makes of `value`,
/// read with `Uuid::as_bytes`. Trusted, not proved: that these are the
/// value's sixteen bytes, most significant first.
#[verifier::external_body]
fn uuid_bytes(value: u128) -> (bytes: [u8; 16])
    ensures
        bytes@ == be_bytes(value),
{
    *uuid::Uuid::from_u128(value).as_bytes()
}

/// The bytes of the advertised service's UUID, written out.
pub open spec fn service_bytes() -> Seq<u8> {
    seq![0u8, 0u8, 0u8, 0u8, 0u8, 0u8, 0u8, 0u8, 0u8, 0u8, 0u8, 0u8, 0u8, 0u8, 0x18u8, 0x0Du8]
}

/// The sixteen bytes of the advertised service's UUID are fourteen zero
/// bytes followed by the two bytes of its short form.
pub proof fn lemma_service_bytes()
    ensures
        be_bytes(SERVICE_UUID) == service_bytes(),
{
    lemma2_to64();
    assert forall|i: int| 0 <= i < 16 implies be_bytes(SERVICE_UUID)[i] == service_bytes()[i] by {
        let k = 15 - i;
        let unit = pow2((8 * k) as nat) as int;
        if k == 0 {
            assert(unit == 1);
            assert(byte_at(SERVICE_UUID, k) == 0x0D);
        } else if k == 1 {
            assert(unit == 256);
            assert(0x180Dint / 256 == 0x18);
            assert(byte_at(SERVICE_UUID, k) == 0x18);
        } else {
            if k > 2 {
                lemma_pow2_strictly_increases(16, (8 * k) as nat);
            }
            assert(unit >= 65536);
            lemma_basic_div(SERVICE_UUID as int, unit);
            assert(byte_at(SERVICE_UUID, k) == 0);
        }
        assert(be_bytes(SERVICE_UUID)[i] == byte_at(SERVICE_UUID, k));
    }
    assert(be_bytes(SERVICE_UUID) =~= service_bytes());
}

/// What the peripheral broadcasts.
#[derive(Debug, Clone, PartialEq, Eq)]
pub struct Advertisement {
    /// The local name.
    pub local_name: String,
    /// The UUIDs of the advertised services, sixteen bytes each.
    pub services: Vec<[u8; 16]>,
}

/// Why discovery over Bluetooth failed. Each variant carries the
/// platform's description of the failure.
#[derive(Debug, Clone, PartialEq, Eq)]
pub enum BleDiscoveryError {
    /// The platform's Bluetooth manager could not be had.
    InitializationError(String),
    /// A scan operation failed.
    DiscoveryError(String),
}

/// Why advertising over Bluetooth failed.
#[derive(Debug, Clone, PartialEq, Eq)]
pub enum BleAdvertiserError {
    /// The peripheral could not be had.
    InitializationError(String),
    /// A broadcast operation failed.
    AdvertiserError(String),
    /// The machine has no advertising peripheral.
    CapabilityUnsupported,
}

impl From<String> for BleDiscoveryError {
    /// A failure of the platform while the backend is made is an
    /// initialization error.
    fn from(description: String) -> (r: BleDiscoveryError) {
        BleDiscoveryError::InitializationError(description)
    }
}

impl vstd::std_specs::convert::FromSpecImpl<String> for BleDiscoveryError {
    open spec fn obeys_from_spec() -> bool {
        true
    }

    open spec fn from_spec(description: String) -> BleDiscoveryError {
        BleDiscoveryError::InitializationError(description)
    }
}

impl Fault for BleDiscoveryError {
    open spec fn kind(&self) -> DiscoveryError {
        match self {
            BleDiscoveryError::InitializationError(_) => DiscoveryError::InitializationError,
            BleDiscoveryError::DiscoveryError(_) => DiscoveryError::OperationError,
        }
    }

    fn classify(&self) -> (r: DiscoveryError) {
        match self {
            BleDiscoveryError::InitializationError(_) => DiscoveryError::InitializationError,
            BleDiscoveryError::DiscoveryError(_) => DiscoveryError::OperationError,
        }
    }
}

impl Fault for BleAdvertiserError {
    open spec fn kind(&self) -> DiscoveryError {
        match self {
            BleAdvertiserError::InitializationError(_) => DiscoveryError::InitializationError,
            BleAdvertiserError::AdvertiserError(_) => DiscoveryError::OperationError,
            BleAdvertiserError::CapabilityUnsupported => DiscoveryError::CapabilityUnsupported,
        }
    }

    fn classify(&self) -> (r: DiscoveryError) {
        match self {
            BleAdvertiserError::InitializationError(_) => DiscoveryError::InitializationError,
            BleAdvertiserError::AdvertiserError(_) => DiscoveryError::OperationError,
            BleAdvertiserError::CapabilityUnsupported => DiscoveryError::CapabilityUnsupported,
        }
    }
}

/// What the platform's central tells of a device, as far as discovery
/// cares.
#[derive(Debug, Clone, Copy, PartialEq, Eq)]
pub enum CentralNotice {
    /// The device was seen for the first time.
    Discovered,
    /// The device was seen again.
    Updated,
    /// A connection to the device was made.
    Connected,
    /// The connection to the device ended.
    Disconnected,
    /// The strength of the device's signal was measured.
    Signal(i16),
    /// Anything else.
    Other,
}

/// The event that a notice about the device `id` amounts to. A device that
/// was seen, connected to or measured is a sighting, the measurement with
/// its signal strength; a device whose connection ended is lost; anything
/// else is no event.
pub open spec fn meaning(notice: CentralNotice, id: Seq<char>) -> Option<DiscoveryEventView> {
    let seen = PeerInfoView { id, transports: Seq::empty(), last_seen: 0, signal: None };
    match notice {
        CentralNotice::Discovered => Some(DiscoveryEventView::PeerDiscovered(seen)),
        CentralNotice::Updated => Some(DiscoveryEventView::PeerDiscovered(seen)),
        CentralNotice::Connected => Some(DiscoveryEventView::PeerDiscovered(seen)),
        CentralNotice::Signal(rssi) => Some(
            DiscoveryEventView::PeerDiscovered(
                PeerInfoView { id, transports: Seq::empty(), last_seen: 0, signal: Some(rssi) },
            ),
        ),
        CentralNotice::Disconnected => Some(DiscoveryEventView::PeerLost(seen)),
        CentralNotice::Other => None,
    }
}

/// Executable form of [`meaning`].
pub fn interpret(notice: CentralNotice, id: PeerId) -> (r: Option<DiscoveryEvent>)
    ensures
        optional_view(r) == meaning(notice, id@),
{
    match notice {
        CentralNotice::Discovered => Some(DiscoveryEvent::PeerDiscovered(PeerInfo::sighting(id, None))),
        CentralNotice::Updated => Some(DiscoveryEvent::PeerDiscovered(PeerInfo::sighting(id, None))),
        CentralNotice::Connected => Some(
            DiscoveryEvent::PeerDiscovered(PeerInfo::sighting(id, None)),
        ),
        CentralNotice::Signal(rssi) => Some(
            DiscoveryEvent::PeerDiscovered(PeerInfo::sighting(id, Some(rssi))),
        ),
        CentralNotice::Disconnected => Some(DiscoveryEvent::PeerLost(PeerInfo::sighting(id, None))),
        CentralNotice::Other => None,
    }
}

/// Mathematical value of a [`BleDiscovery`].
pub struct BleView {
    /// Whether an advertising peripheral is at hand.
    pub peripheral: bool,
    /// Whether the central scans.
    pub scanning: bool,
    /// Whether the peripheral broadcasts.
    pub advertising: bool,
    /// The sightings that wait to be handed out.
    pub backlog: Seq<DiscoveryEventView>,
}

impl BleView {
    /// The backend after a request to scan.
    pub open spec fn started(self) -> BleView {
        BleView { scanning: true, ..self }
    }

    /// The backend after a request to end the scan.
    pub open spec fn stopped(self) -> BleView {
        BleView { scanning: false, ..self }
    }

    /// The backend after a request to broadcast: unchanged where there is
    /// no peripheral.
    pub open spec fn announced(self) -> BleView {
        if self.peripheral {
            BleView { advertising: true, ..self }
        } else {
            self
        }
    }

    /// The backend after a request to end the broadcast.
    pub open spec fn silenced(self) -> BleView {
        if self.peripheral {
            BleView { advertising: false, ..self }
        } else {
            self
        }
    }
}

/// The Bluetooth Low Energy backend.
pub struct BleDiscovery {
    peripheral: bool,
    scanning: bool,
    advertising: bool,
    pending: Vec<DiscoveryEvent>,
}

impl View for BleDiscovery {
    type V = BleView;

    closed spec fn view(&self) -> BleView {
        BleView {
            peripheral: self.peripheral,
            scanning: self.scanning,
            advertising: self.advertising,
            backlog: event_views(self.pending@),
        }
    }
}

impl BleDiscovery {
    /// Makes the backend from what the platform answered: `manager` is the
    /// outcome of acquiring the Bluetooth manager, with the platform's
    /// description of the failure, and `peripheral_available` says whether
    /// an advertising peripheral could be had. Without a manager there is
    /// no backend; without a peripheral there is one that cannot advertise.
    pub fn new(manager: Result<(), String>, peripheral_available: bool) -> (r: Result<
        BleDiscovery,
        BleDiscoveryError,
    >)
        ensures
            manager is Ok ==> r is Ok && r->Ok_0@ == (BleView {
                peripheral: peripheral_available,
                scanning: false,
                advertising: false,
                backlog: Seq::empty(),
            }),
            manager is Err ==> r == Err::<BleDiscovery, BleDiscoveryError>(
                BleDiscoveryError::InitializationError(manager->Err_0),
            ),
    {
        match manager {
            Ok(_) => {
                let backend = BleDiscovery {
                    peripheral: peripheral_available,
                    scanning: false,
                    advertising: false,
                    pending: Vec::new(),
                };
                assert(backend@.backlog =~= Seq::<DiscoveryEventView>::empty());
                Ok(backend)
            },
            Err(description) => Err(BleDiscoveryError::from(description)),
        }
    }

    /// Publishing the service needs no preparation on this transport and
    /// always succeeds.
    pub fn publish_service(&self) -> (r: Result<(), BleDiscoveryError>)
        ensures
            r == Ok::<(), BleDiscoveryError>(()),
    {
        Ok(())
    }

    /// The capabilities the backend declares: it can always scan, and it
    /// can advertise when a peripheral is at hand.
    pub fn capabilities(&self) -> (r: Capabilities)
        ensures
            r == (Capabilities { can_scan: true, can_advertise: self@.peripheral }),
    {
        Capabilities { can_scan: true, can_advertise: self.peripheral }
    }

    /// The adapter to scan with, out of `available` adapters: the first
    /// one. Without an adapter the scan cannot start.
    pub fn select_adapter(available: usize) -> (r: Result<usize, BleDiscoveryError>)
        ensures
            available > 0 ==> r == Ok::<usize, BleDiscoveryError>(0),
            available == 0 ==> r is Err && r->Err_0 is DiscoveryError
                && r->Err_0->DiscoveryError_0@ == "no Bluetooth adapter"@,
    {
        if available > 0 {
            Ok(0)
        } else {
            Err(BleDiscoveryError::DiscoveryError("no Bluetooth adapter".to_owned()))
        }
    }

    /// What the peripheral is to broadcast: the backend's local name and
    /// its one service.
    pub fn advertisement() -> (r: Advertisement)
        ensures
            r.local_name@ == "pdrop-01"@,
            r.services@.len() == 1,
            r.services@[0]@ == service_bytes(),
    {
        proof {
            lemma_service_bytes();
        }
        let mut services: Vec<[u8; 16]> = Vec::new();
        services.push(uuid_bytes(SERVICE_UUID));
        Advertisement { local_name: "pdrop-01".to_owned(), services }
    }

    /// Takes in a sighting that the platform delivered. Sightings that
    /// arrive while the backend does not scan are dropped. Says whether
    /// the sighting was taken in.
    pub fn record(&mut self, event: DiscoveryEvent) -> (r: bool)
        ensures
            r == old(self)@.scanning,
            final(self)@ == (if old(self)@.scanning {
                BleView { backlog: old(self)@.backlog.push(event@), ..old(self)@ }
            } else {
                old(self)@
            }),
    {
        if self.scanning {
            self.pending.push(event);
            assert(event_views(self.pending@) =~= event_views(old(self).pending@).push(event@));
            true
        } else {
            false
        }
    }

    /// The platform failed to carry out the scan that the backend asked
    /// for, or the scan broke down: the backend no longer scans. Returns
    /// the failure to report.
    pub fn scan_failed(&mut self, description: String) -> (r: BleDiscoveryError)
        ensures
            final(self)@ == old(self)@.stopped(),
            r == BleDiscoveryError::DiscoveryError(description),
    {
        self.scanning = false;
        BleDiscoveryError::DiscoveryError(description)
    }

    /// The platform failed to carry out the broadcast that the backend
    /// asked for: the backend no longer broadcasts. Returns the failure to
    /// report.
    pub fn broadcast_failed(&mut self, description: String) -> (r: BleAdvertiserError)
        ensures
            final(self)@ == (BleView { advertising: false, ..old(self)@ }),
            r == BleAdvertiserError::AdvertiserError(description),
    {
        self.advertising = false;
        BleAdvertiserError::AdvertiserError(description)
    }
}

impl Discovery for BleDiscovery {
    type Error = BleDiscoveryError;

    type DiscoveryEvent = DiscoveryEvent;

    open spec fn scanning(&self) -> bool {
        self@.scanning
    }

    open spec fn backlog(&self) -> Seq<DiscoveryEventView> {
        self@.backlog
    }

    fn start_scan(&mut self) -> (r: Result<Transition, BleDiscoveryError>)
        ensures
            r is Ok,
            final(self)@ == old(self)@.started(),
    {
        if self.scanning {
            Ok(Transition::Unchanged)
        } else {
            self.scanning = true;
            Ok(Transition::Changed)
        }
    }

    fn stop_scan(&mut self) -> (r: Result<Transition, BleDiscoveryError>)
        ensures
            r is Ok,
            final(self)@ == old(self)@.stopped(),
    {
        if self.scanning {
            self.scanning = false;
            Ok(Transition::Changed)
        } else {
            Ok(Transition::Unchanged)
        }
    }

    fn poll_events(&mut self) -> (r: Option<Vec<DiscoveryEvent>>)
        ensures
            final(self)@ == (BleView { backlog: Seq::empty(), ..old(self)@ }),
    {
        if !self.scanning && self.pending.len() == 0 {
            assert(self@.backlog =~= Seq::<DiscoveryEventView>::empty());
            None
        } else {
            let mut batch: Vec<DiscoveryEvent> = Vec::new();
            core::mem::swap(&mut self.pending, &mut batch);
            assert(self@.backlog =~= Seq::<DiscoveryEventView>::empty());
            Some(batch)
        }
    }
}

impl Advertiser for BleDiscovery {
    type Error = BleAdvertiserError;

    open spec fn advertises(&self) -> bool {
        self@.peripheral
    }

    open spec fn broadcasting(&self) -> bool {
        self@.advertising
    }

    fn broadcast(&mut self) -> (r: Result<Transition, BleAdvertiserError>)
        ensures
            !old(self)@.peripheral ==> r == Err::<Transition, BleAdvertiserError>(
                BleAdvertiserError::CapabilityUnsupported,
            ),
            old(self)@.peripheral ==> r is Ok,
            final(self)@ == old(self)@.announced(),
    {
        if !self.peripheral {
            Err(BleAdvertiserError::CapabilityUnsupported)
        } else if self.advertising {
            Ok(Transition::Unchanged)
        } else {
            self.advertising = true;
            Ok(Transition::Changed)
        }
    }

    fn stop_broadcast(&mut self) -> (r: Result<Transition, BleAdvertiserError>)
        ensures
            !old(self)@.peripheral ==> r == Err::<Transition, BleAdvertiserError>(
                BleAdvertiserError::CapabilityUnsupported,
            ),
            old(self)@.peripheral ==> r is Ok,
            final(self)@ == old(self)@.silenced(),
    {
        if !self.peripheral {
            Err(BleAdvertiserError::CapabilityUnsupported)
        } else if self.advertising {
            self.advertising = false;
            Ok(Transition::Changed)
        } else {
            Ok(Transition::Unchanged)
        }
    }
}

impl DiscoveryAdvertiser for BleDiscovery {

}

/// Asking a backend to scan is idempotent: the second request finds the
/// backend as the first one left it, backlog included, and asking it to
/// end the scan is idempotent too.
pub proof fn scan_requests_are_idempotent(backend: BleView)
    ensures
        backend.started().scanning,
        backend.started().started() == backend.started(),
        backend.started().backlog == backend.backlog,
        !backend.stopped().scanning,
        backend.stopped().stopped() == backend.stopped(),
{
}

/// A request to broadcast on a backend without a peripheral changes
/// nothing, and requests to broadcast are idempotent.
pub proof fn broadcast_needs_a_peripheral(backend: BleView)
    ensures
        !backend.peripheral ==> backend.announced() == backend && backend.silenced() == backend,
        backend.peripheral ==> backend.announced().advertising,
        backend.announced().announced() == backend.announced(),
        backend.silenced().silenced() == backend.silenced(),
{
}

} // verus!
