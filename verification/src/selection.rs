//! The generic inter-client data-transfer engine.
//!
//! One `SelectionEngine` is instantiated per transfer flavor (clipboard,
//! primary selection) and is shared by all clients and seats. It owns the
//! per-seat selection state: which source is active, which devices observe
//! the seat, which offers have been fanned out, and which serials authorize
//! a change. Every mutation of that state goes through the operations here;
//! client-facing code only enqueues the notifications the operations return.

use vstd::prelude::*;

use crate::ids::{ClientId, DeviceId, OfferId, SeatId, SourceId};

verus! {

/// A per-(client, seat) endpoint through which a client observes and sets
/// the selection. Bridge devices stand for the legacy compatibility layer:
/// their notifications go to an asynchronous cross-subsystem queue instead
/// of a client connection.
#[derive(Clone, Copy, PartialEq, Eq, Structural, Debug)]
pub struct Device {
    pub id: DeviceId,
    pub client: ClientId,
    pub seat: SeatId,
    pub is_bridge: bool,
}

/// A client's offer to provide data. Mime types accumulate after creation;
/// a cancelled source never becomes active again.
pub struct Source {
    pub id: SourceId,
    pub client: ClientId,
    pub mime_types: Vec<String>,
    pub cancelled: bool,
}

/// A per-recipient handle onto a source, created when a new selection is
/// fanned out to the devices of a seat.
#[derive(Clone, Copy, PartialEq, Eq, Structural, Debug)]
pub struct Offer {
    pub id: OfferId,
    pub source: SourceId,
    pub device: DeviceId,
    pub client: ClientId,
    pub seat: SeatId,
}

/// The serials the server has issued to one client on one seat.
pub struct ClientSerials {
    pub client: ClientId,
    pub serials: Vec<u64>,
}

/// Per-seat selection state: the active source, the serial bookkeeping and
/// whether a conflicting role currently suppresses changes.
pub struct SeatSelection {
    pub seat: SeatId,
    pub active: Option<SourceId>,
    pub last_accepted_serial: u64,
    pub suppressed: bool,
    pub issued: Vec<ClientSerials>,
}

/// A notification owed to a client (or to the bridge queue) as the result
/// of an engine operation. The engine never talks to clients itself; the
/// caller enqueues these in order.
#[derive(Clone, PartialEq, Debug)]
pub enum Notification {
    /// A new offer object is introduced to a recipient's device.
    NewOffer { client: ClientId, device: DeviceId, offer: OfferId },
    /// A device is told what the current selection is.
    SelectionIs { client: ClientId, device: DeviceId, offer: Option<OfferId> },
    /// A source's owner is told the source was superseded or cleared.
    Cancelled { client: ClientId, source: SourceId },
    /// Bridge-queue counterpart of `NewOffer`.
    BridgeSetOffer { seat: SeatId, offer: OfferId },
    /// Bridge-queue counterpart of `SelectionIs`.
    BridgeSetSelection { seat: SeatId, offer: Option<OfferId> },
    /// Ask a source's owner to write `mime_type` to the sink descriptor.
    TransferRequest { client: ClientId, source: SourceId, mime_type: String, sink_fd: i32 },
}

/// Protocol-level failures of the engine.
#[derive(Clone, Copy, PartialEq, Eq, Structural, Debug)]
pub enum IpcError {
    /// The serial was never issued to the requester or is older than the
    /// seat's last accepted serial.
    StaleSerial,
    /// The offer's source has been cancelled or superseded.
    OfferStale,
    /// The mime type was never advertised by the offer's source.
    MimeTypeNotOffered,
    /// The client already holds a device for this seat.
    DeviceAlreadyExists,
}

/// What a `set_selection` request did: applied with the notifications to
/// deliver, or silently suppressed because a conflicting role holds the seat.
#[derive(Clone, PartialEq, Debug)]
pub enum SetSelectionOutcome {
    Applied(Vec<Notification>),
    Suppressed,
}

/// Index of the first occurrence of `k` in `keys`, or `keys.len()` when
/// `k` does not occur.
pub open spec fn key_index(keys: Seq<u64>, k: u64) -> int
    decreases keys.len(),
{
    if keys.len() == 0 {
        0
    } else if keys[0] == k {
        0
    } else {
        1 + key_index(keys.skip(1), k)
    }
}

/// `k` occurs in `keys`.
pub open spec fn has_key(keys: Seq<u64>, k: u64) -> bool {
    key_index(keys, k) < keys.len()
}

/// The defining properties of `key_index`: it is in bounds, it points at
/// `k` when `k` occurs, and nothing before it is `k`.
pub proof fn lemma_key_index(keys: Seq<u64>, k: u64)
    ensures
        0 <= key_index(keys, k) <= keys.len(),
        has_key(keys, k) ==> keys[key_index(keys, k)] == k,
        forall|i: int| 0 <= i < key_index(keys, k) ==> keys[i] != k,
        has_key(keys, k) <==> exists|i: int| 0 <= i < keys.len() && keys[i] == k,
    decreases keys.len(),
{
    if keys.len() > 0 && keys[0] != k {
        lemma_key_index(keys.skip(1), k);
        assert forall|i: int| 0 <= i < key_index(keys, k) implies keys[i] != k by {
            if i >= 1 {
                assert(keys.skip(1)[i - 1] == keys[i]);
            }
        }
        if has_key(keys, k) {
            assert(keys.skip(1)[key_index(keys.skip(1), k)] == keys[key_index(keys, k)]);
        }
        if exists|i: int| 0 <= i < keys.len() && keys[i] == k {
            let i = choose|i: int| 0 <= i < keys.len() && keys[i] == k;
            assert(keys.skip(1)[i - 1] == k);
        }
    }
}

/// Appending one key: `k` occurs in the longer sequence exactly when it
/// occurs in the shorter one or is the appended key.
pub proof fn lemma_has_key_push(keys: Seq<u64>, x: u64, k: u64)
    ensures
        has_key(keys.push(x), k) <==> has_key(keys, k) || x == k,
        has_key(keys, k) ==> key_index(keys.push(x), k) == key_index(keys, k),
        !has_key(keys, k) && x == k ==> key_index(keys.push(x), k) == keys.len(),
{
    lemma_key_index(keys, k);
    lemma_key_index(keys.push(x), k);
    if has_key(keys, k) {
        assert(keys.push(x)[key_index(keys, k)] == k);
    }
    if x == k {
        assert(keys.push(x)[keys.len() as int] == k);
    }
    if has_key(keys.push(x), k) && !has_key(keys, k) && x != k {
        let i = key_index(keys.push(x), k);
        assert(keys.push(x)[i] == k);
        if i < keys.len() {
            assert(keys[i] == k);
        }
    }
}

pub open spec fn client_serial_keys(issued: Seq<ClientSerials>) -> Seq<u64> {
    issued.map_values(|c: ClientSerials| c.client.0)
}

/// The serials issued to `client` in one seat's bookkeeping.
pub open spec fn serials_of(issued: Seq<ClientSerials>, client: ClientId) -> Seq<u64> {
    if has_key(client_serial_keys(issued), client.0) {
        issued[key_index(client_serial_keys(issued), client.0)].serials@
    } else {
        Seq::<u64>::empty()
    }
}

/// `serial` was issued to `client` in this seat's bookkeeping.
pub open spec fn serial_issued(issued: Seq<ClientSerials>, client: ClientId, serial: u64) -> bool {
    serials_of(issued, client).contains(serial)
}

pub open spec fn device_keys(devs: Seq<Device>) -> Seq<u64> {
    devs.map_values(|d: Device| d.id.0)
}

pub open spec fn source_keys(srcs: Seq<Source>) -> Seq<u64> {
    srcs.map_values(|s: Source| s.id.0)
}

pub open spec fn offer_keys(offs: Seq<Offer>) -> Seq<u64> {
    offs.map_values(|o: Offer| o.id.0)
}

pub open spec fn seat_keys(seats: Seq<SeatSelection>) -> Seq<u64> {
    seats.map_values(|s: SeatSelection| s.seat.0)
}

/// Whether fanning a new selection out to `d` consumes a fresh offer id:
/// every device except the owner's gets its own offer.
pub open spec fn takes_offer(d: Device, owner: ClientId) -> bool {
    d.client != owner
}

/// The notifications one device receives when `owner`'s new source becomes
/// the seat's selection, with `next` the id of the offer minted for it.
/// The owner's own devices are told the selection is "no offer"; bridge
/// devices get the bridge-queue counterparts.
pub open spec fn device_notifs(d: Device, seat: SeatId, owner: ClientId, next: u64) -> Seq<
    Notification,
> {
    if d.client == owner {
        if d.is_bridge {
            seq![Notification::BridgeSetSelection { seat, offer: None }]
        } else {
            seq![Notification::SelectionIs { client: d.client, device: d.id, offer: None }]
        }
    } else if d.is_bridge {
        seq![
            Notification::BridgeSetOffer { seat, offer: OfferId(next) },
            Notification::BridgeSetSelection { seat, offer: Some(OfferId(next)) },
        ]
    } else {
        seq![
            Notification::NewOffer { client: d.client, device: d.id, offer: OfferId(next) },
            Notification::SelectionIs {
                client: d.client,
                device: d.id,
                offer: Some(OfferId(next)),
            },
        ]
    }
}

/// The notification sequence of a new selection across a device table, in
/// table order, restricted to the devices of `seat`.
pub open spec fn broadcast_notifs(
    devs: Seq<Device>,
    seat: SeatId,
    owner: ClientId,
    next: u64,
) -> Seq<Notification>
    decreases devs.len(),
{
    if devs.len() == 0 {
        Seq::<Notification>::empty()
    } else if devs[0].seat != seat {
        broadcast_notifs(devs.skip(1), seat, owner, next)
    } else if takes_offer(devs[0], owner) {
        device_notifs(devs[0], seat, owner, next) + broadcast_notifs(
            devs.skip(1),
            seat,
            owner,
            (next + 1) as u64,
        )
    } else {
        device_notifs(devs[0], seat, owner, next) + broadcast_notifs(devs.skip(1), seat, owner, next)
    }
}

/// The offers minted by that broadcast, in table order.
pub open spec fn broadcast_offers(
    devs: Seq<Device>,
    seat: SeatId,
    owner: ClientId,
    src: SourceId,
    next: u64,
) -> Seq<Offer>
    decreases devs.len(),
{
    if devs.len() == 0 {
        Seq::<Offer>::empty()
    } else if devs[0].seat != seat || !takes_offer(devs[0], owner) {
        broadcast_offers(devs.skip(1), seat, owner, src, next)
    } else {
        seq![
            Offer {
                id: OfferId(next),
                source: src,
                device: devs[0].id,
                client: devs[0].client,
                seat: devs[0].seat,
            },
        ] + broadcast_offers(devs.skip(1), seat, owner, src, (next + 1) as u64)
    }
}

/// The notification sequence of an emptied selection: every device of the
/// seat is told the selection is now empty.
pub open spec fn clear_notifs(devs: Seq<Device>, seat: SeatId) -> Seq<Notification>
    decreases devs.len(),
{
    if devs.len() == 0 {
        Seq::<Notification>::empty()
    } else if devs[0].seat != seat {
        clear_notifs(devs.skip(1), seat)
    } else if devs[0].is_bridge {
        seq![Notification::BridgeSetSelection { seat, offer: None }] + clear_notifs(
            devs.skip(1),
            seat,
        )
    } else {
        seq![
            Notification::SelectionIs { client: devs[0].client, device: devs[0].id, offer: None },
        ] + clear_notifs(devs.skip(1), seat)
    }
}

/// The device table with every device of `client` removed; the order of
/// the remaining devices is kept.
pub open spec fn devices_without_client(devs: Seq<Device>, client: ClientId) -> Seq<Device>
    decreases devs.len(),
{
    if devs.len() == 0 {
        Seq::<Device>::empty()
    } else if devs[0].client == client {
        devices_without_client(devs.skip(1), client)
    } else {
        seq![devs[0]] + devices_without_client(devs.skip(1), client)
    }
}

/// What survives `devices_without_client`: only devices of other clients,
/// each one an element of the original table, and id-uniqueness carries
/// over.
pub proof fn lemma_devices_without_client(devs: Seq<Device>, client: ClientId)
    ensures
        forall|k: int|
            0 <= k < devices_without_client(devs, client).len() ==> (#[trigger] devices_without_client(
                devs,
                client,
            )[k]).client != client,
        forall|k: int|
            0 <= k < devices_without_client(devs, client).len() ==> exists|m: int|
                0 <= m < devs.len() && #[trigger] devs[m] == #[trigger] devices_without_client(
                    devs,
                    client,
                )[k],
        (forall|i: int, j: int|
            0 <= i < j < devs.len() ==> devs[i].id != devs[j].id) ==> (forall|i: int, j: int|
            0 <= i < j < devices_without_client(devs, client).len()
                ==> devices_without_client(devs, client)[i].id != devices_without_client(
                devs,
                client,
            )[j].id),
    decreases devs.len(),
{
    if devs.len() > 0 {
        let rest = devs.skip(1);
        lemma_devices_without_client(rest, client);
        let dwc = devices_without_client(devs, client);
        let dwcr = devices_without_client(rest, client);
        assert forall|k: int| #![trigger dwc[k]] 0 <= k < dwc.len() implies exists|m: int|
            0 <= m < devs.len() && #[trigger] devs[m] == dwc[k] by {
            if devs[0].client == client {
                let m = choose|m: int| 0 <= m < rest.len() && rest[m] == dwcr[k];
                assert(devs[m + 1] == dwc[k]);
            } else if k == 0 {
                assert(devs[0] == dwc[0]);
            } else {
                assert(dwc[k] == dwcr[k - 1]);
                let m = choose|m: int| 0 <= m < rest.len() && rest[m] == dwcr[k - 1];
                assert(devs[m + 1] == dwc[k]);
            }
        }
        if forall|i: int, j: int| 0 <= i < j < devs.len() ==> devs[i].id != devs[j].id {
            assert forall|i: int, j: int|
                0 <= i < j < rest.len() implies rest[i].id != rest[j].id by {
                assert(rest[i] == devs[i + 1]);
                assert(rest[j] == devs[j + 1]);
            }
            assert forall|i: int, j: int| 0 <= i < j < dwc.len() implies dwc[i].id
                != dwc[j].id by {
                if devs[0].client == client {
                    assert(dwc[i] == dwcr[i] && dwc[j] == dwcr[j]);
                } else if i == 0 {
                    assert(dwc[j] == dwcr[j - 1]);
                    let m = choose|m: int| 0 <= m < rest.len() && rest[m] == dwcr[j - 1];
                    assert(devs[m + 1] == dwc[j]);
                    assert(devs[0].id != devs[m + 1].id);
                } else {
                    assert(dwc[i] == dwcr[i - 1] && dwc[j] == dwcr[j - 1]);
                }
            }
        }
    }
}

/// The engine. One instance per flavor; all seats and clients share it.
pub struct SelectionEngine {
    pub devices: Vec<Device>,
    pub sources: Vec<Source>,
    pub offers: Vec<Offer>,
    pub seats: Vec<SeatSelection>,
    pub next_offer_id: u64,
    pub next_serial: u64,
}

impl SelectionEngine {
    pub open spec fn devices_view(self) -> Seq<Device> {
        self.devices@
    }

    pub open spec fn sources_view(self) -> Seq<Source> {
        self.sources@
    }

    pub open spec fn offers_view(self) -> Seq<Offer> {
        self.offers@
    }

    pub open spec fn seats_view(self) -> Seq<SeatSelection> {
        self.seats@
    }

    pub open spec fn has_seat(self, seat: SeatId) -> bool {
        has_key(seat_keys(self.seats@), seat.0)
    }

    pub open spec fn seat_index(self, seat: SeatId) -> int {
        key_index(seat_keys(self.seats@), seat.0)
    }

    pub open spec fn seat_state(self, seat: SeatId) -> SeatSelection {
        self.seats@[self.seat_index(seat)]
    }

    /// The active source of a seat, `None` when the seat is unknown or empty.
    pub open spec fn active_source(self, seat: SeatId) -> Option<SourceId> {
        if self.has_seat(seat) {
            self.seat_state(seat).active
        } else {
            None
        }
    }

    pub open spec fn has_device(self, dev: DeviceId) -> bool {
        has_key(device_keys(self.devices@), dev.0)
    }

    pub open spec fn device_index(self, dev: DeviceId) -> int {
        key_index(device_keys(self.devices@), dev.0)
    }

    pub open spec fn device_state(self, dev: DeviceId) -> Device {
        self.devices@[self.device_index(dev)]
    }

    pub open spec fn has_source(self, src: SourceId) -> bool {
        has_key(source_keys(self.sources@), src.0)
    }

    pub open spec fn source_index(self, src: SourceId) -> int {
        key_index(source_keys(self.sources@), src.0)
    }

    pub open spec fn source_state(self, src: SourceId) -> Source {
        self.sources@[self.source_index(src)]
    }

    pub open spec fn has_offer(self, off: OfferId) -> bool {
        has_key(offer_keys(self.offers@), off.0)
    }

    pub open spec fn offer_index(self, off: OfferId) -> int {
        key_index(offer_keys(self.offers@), off.0)
    }

    pub open spec fn offer_state(self, off: OfferId) -> Offer {
        self.offers@[self.offer_index(off)]
    }

    /// The mime types a source has advertised, as sequences of characters.
    pub open spec fn source_mimes(self, src: SourceId) -> Seq<Seq<char>> {
        self.source_state(src).mime_types@.map_values(|m: String| m@)
    }

    /// An offer is live while its source has been neither cancelled nor
    /// superseded.
    pub open spec fn offer_live(self, off: OfferId) -> bool {
        &&& self.has_offer(off)
        &&& self.has_source(self.offer_state(off).source)
        &&& !self.source_state(self.offer_state(off).source).cancelled
    }

    /// A live offer is backed by its seat's selection: as long as an
    /// offer's source has not been cancelled, that source is exactly what
    /// the offer's seat currently holds active.
    pub open spec fn offer_backed(self, o: Offer) -> bool {
        !self.sources@[key_index(source_keys(self.sources@), o.source.0)].cancelled ==> {
            &&& has_key(seat_keys(self.seats@), o.seat.0)
            &&& self.seats@[key_index(seat_keys(self.seats@), o.seat.0)].active == Some(o.source)
        }
    }

    /// Well-formedness: ids are unique, every cross-reference resolves, an
    /// active source is never cancelled, a live offer is backed by its
    /// seat's active source, and the id counters dominate every id handed
    /// out so far.
    pub open spec fn wf(self) -> bool {
        &&& forall|i: int, j: int|
            0 <= i < j < self.devices@.len() ==> self.devices@[i].id != self.devices@[j].id
        &&& forall|i: int, j: int|
            0 <= i < j < self.sources@.len() ==> self.sources@[i].id != self.sources@[j].id
        &&& forall|i: int, j: int|
            0 <= i < j < self.offers@.len() ==> self.offers@[i].id != self.offers@[j].id
        &&& forall|i: int, j: int|
            0 <= i < j < self.seats@.len() ==> self.seats@[i].seat != self.seats@[j].seat
        &&& forall|i: int|
            0 <= i < self.seats@.len() ==> match #[trigger] self.seats@[i].active {
                Some(s) => has_key(source_keys(self.sources@), s.0)
                    && !self.sources@[key_index(source_keys(self.sources@), s.0)].cancelled,
                None => true,
            }
        &&& forall|i: int|
            0 <= i < self.offers@.len() ==> has_key(
                source_keys(self.sources@),
                (#[trigger] self.offers@[i]).source.0,
            )
        &&& forall|i: int|
            0 <= i < self.devices@.len() ==> has_key(
                seat_keys(self.seats@),
                (#[trigger] self.devices@[i]).seat.0,
            )
        &&& forall|i: int|
            0 <= i < self.offers@.len() ==> (#[trigger] self.offers@[i]).id.0 < self.next_offer_id
        &&& forall|i: int, j: int|
            #![trigger self.seats@[i].active, self.seats@[j].active]
            0 <= i < j < self.seats@.len() ==> !(self.seats@[i].active is Some
                && self.seats@[i].active == self.seats@[j].active)
        &&& forall|i: int|
            0 <= i < self.offers@.len() ==> self.offer_backed(#[trigger] self.offers@[i])
    }

    /// A fresh engine: no seats, devices, sources or offers.
    pub fn new() -> (r: SelectionEngine)
        ensures
            r.wf(),
            r.devices_view() =~= Seq::<Device>::empty(),
            r.sources_view() =~= Seq::<Source>::empty(),
            r.offers_view() =~= Seq::<Offer>::empty(),
            r.seats_view() =~= Seq::<SeatSelection>::empty(),
            r.next_offer_id == 0,
            r.next_serial == 0,
    {
        SelectionEngine {
            devices: Vec::new(),
            sources: Vec::new(),
            offers: Vec::new(),
            seats: Vec::new(),
            next_offer_id: 0,
            next_serial: 0,
        }
    }

    /// First index of `seat` in the seat table, or its length when absent.
    fn find_seat(&self, seat: SeatId) -> (r: usize)
        ensures
            r as int == self.seat_index(seat),
            r < self.seats@.len() <==> self.has_seat(seat),
    {
        let mut i: usize = 0;
        while i < self.seats.len()
            invariant
                0 <= i <= self.seats@.len(),
                forall|j: int| 0 <= j < i ==> seat_keys(self.seats@)[j] != seat.0,
            decreases self.seats@.len() - i,
        {
            if self.seats[i].seat.0 == seat.0 {
                proof {
                    lemma_key_index(seat_keys(self.seats@), seat.0);
                    assert(seat_keys(self.seats@)[i as int] == seat.0);
                }
                return i;
            }
            i = i + 1;
        }
        proof {
            lemma_key_index(seat_keys(self.seats@), seat.0);
        }
        i
    }

    fn find_device(&self, dev: DeviceId) -> (r: usize)
        ensures
            r as int == self.device_index(dev),
            r < self.devices@.len() <==> self.has_device(dev),
    {
        let mut i: usize = 0;
        while i < self.devices.len()
            invariant
                0 <= i <= self.devices@.len(),
                forall|j: int| 0 <= j < i ==> device_keys(self.devices@)[j] != dev.0,
            decreases self.devices@.len() - i,
        {
            if self.devices[i].id.0 == dev.0 {
                proof {
                    lemma_key_index(device_keys(self.devices@), dev.0);
                    assert(device_keys(self.devices@)[i as int] == dev.0);
                }
                return i;
            }
            i = i + 1;
        }
        proof {
            lemma_key_index(device_keys(self.devices@), dev.0);
        }
        i
    }

    fn find_source(&self, src: SourceId) -> (r: usize)
        ensures
            r as int == self.source_index(src),
            r < self.sources@.len() <==> self.has_source(src),
    {
        let mut i: usize = 0;
        while i < self.sources.len()
            invariant
                0 <= i <= self.sources@.len(),
                forall|j: int| 0 <= j < i ==> source_keys(self.sources@)[j] != src.0,
            decreases self.sources@.len() - i,
        {
            if self.sources[i].id.0 == src.0 {
                proof {
                    lemma_key_index(source_keys(self.sources@), src.0);
                    assert(source_keys(self.sources@)[i as int] == src.0);
                }
                return i;
            }
            i = i + 1;
        }
        proof {
            lemma_key_index(source_keys(self.sources@), src.0);
        }
        i
    }

    fn find_offer(&self, off: OfferId) -> (r: usize)
        ensures
            r as int == self.offer_index(off),
            r < self.offers@.len() <==> self.has_offer(off),
    {
        let mut i: usize = 0;
        while i < self.offers.len()
            invariant
                0 <= i <= self.offers@.len(),
                forall|j: int| 0 <= j < i ==> offer_keys(self.offers@)[j] != off.0,
            decreases self.offers@.len() - i,
        {
            if self.offers[i].id.0 == off.0 {
                proof {
                    lemma_key_index(offer_keys(self.offers@), off.0);
                    assert(offer_keys(self.offers@)[i as int] == off.0);
                }
                return i;
            }
            i = i + 1;
        }
        proof {
            lemma_key_index(offer_keys(self.offers@), off.0);
        }
        i
    }

    /// Attach fresh per-seat selection state to a seat. Seats are created
    /// and destroyed by global server state, never by the engine; this only
    /// registers one with this flavor. Does nothing for a known seat.
    pub fn add_seat(&mut self, seat: SeatId)
        requires
            old(self).wf(),
        ensures
            final(self).wf(),
            final(self).has_seat(seat),
            final(self).devices_view() == old(self).devices_view(),
            final(self).sources_view() == old(self).sources_view(),
            final(self).offers_view() == old(self).offers_view(),
            final(self).next_offer_id == old(self).next_offer_id,
            final(self).next_serial == old(self).next_serial,
            old(self).has_seat(seat) ==> *final(self) == *old(self),
            !old(self).has_seat(seat) ==> {
                &&& final(self).seats_view().len() == old(self).seats_view().len() + 1
                &&& final(self).seats_view().take(old(self).seats_view().len() as int)
                    =~= old(self).seats_view()
                &&& final(self).seat_state(seat).seat == seat
                &&& final(self).seat_state(seat).active is None
                &&& final(self).seat_state(seat).last_accepted_serial == 0
                &&& final(self).seat_state(seat).suppressed == false
                &&& final(self).seat_state(seat).issued@ =~= Seq::<ClientSerials>::empty()
            },
    {
        let i = self.find_seat(seat);
        if i < self.seats.len() {
            return ;
        }
        proof {
            lemma_key_index(seat_keys(self.seats@), seat.0);
        }
        let st = SeatSelection {
            seat,
            active: None,
            last_accepted_serial: 0,
            suppressed: false,
            issued: Vec::<ClientSerials>::new(),
        };
        self.seats.push(st);
        proof {
            let okeys = seat_keys(old(self).seats@);
            let keys = seat_keys(self.seats@);
            assert(keys =~= okeys.push(seat.0));
            lemma_key_index(keys, seat.0);
            lemma_key_index(okeys, seat.0);
            assert(keys[keys.len() - 1] == seat.0);
            assert(self.has_seat(seat));
            assert(self.seat_index(seat) == self.seats@.len() - 1) by {
                assert(forall|i: int| 0 <= i < keys.len() - 1 ==> keys[i] == okeys[i]);
            }
            assert forall|i: int|
                0 <= i < self.devices@.len() implies has_key(
                keys,
                (#[trigger] self.devices@[i]).seat.0,
            ) by {
                lemma_has_key_push(okeys, seat.0, self.devices@[i].seat.0);
            }
            assert forall|i: int, j: int|
                0 <= i < j < self.seats@.len() implies self.seats@[i].seat
                != self.seats@[j].seat by {
                if j == self.seats@.len() - 1 {
                    assert(okeys[i] != seat.0);
                    assert(okeys[i] == self.seats@[i].seat.0);
                }
            }
            assert forall|k: int|
                0 <= k < self.offers@.len() implies self.offer_backed(
                #[trigger] self.offers@[k],
            ) by {
                let o = self.offers@[k];
                assert(old(self).offer_backed(o));
                let skeys = source_keys(self.sources@);
                lemma_key_index(skeys, o.source.0);
                if !self.sources@[key_index(skeys, o.source.0)].cancelled {
                    assert(has_key(okeys, o.seat.0));
                    lemma_key_index(okeys, o.seat.0);
                    lemma_has_key_push(okeys, seat.0, o.seat.0);
                    let j = key_index(okeys, o.seat.0);
                    assert(self.seats@[j] == old(self).seats@[j]);
                }
            }
            assert(self.wf());
        }
    }

    /// `client` already holds a device on `seat`.
    pub open spec fn client_device_on_seat(self, client: ClientId, seat: SeatId) -> bool {
        exists|i: int|
            0 <= i < self.devices@.len() && (#[trigger] self.devices@[i]).client == client
                && self.devices@[i].seat == seat
    }

    /// Register a device for `client` on `seat`. The id is minted by the
    /// caller and must be fresh; the request fails only when the client
    /// already holds a device for that seat.
    #[verifier::loop_isolation(false)]
    pub fn create_device(
        &mut self,
        id: DeviceId,
        client: ClientId,
        seat: SeatId,
        is_bridge: bool,
    ) -> (r: Result<(), IpcError>)
        requires
            old(self).wf(),
            old(self).has_seat(seat),
            !old(self).has_device(id),
        ensures
            final(self).wf(),
            r is Ok <==> !old(self).client_device_on_seat(client, seat),
            r is Err ==> r == Err::<(), IpcError>(IpcError::DeviceAlreadyExists) && *final(self)
                == *old(self),
            r is Ok ==> {
                &&& final(self).devices_view() =~= old(self).devices_view().push(
                    Device { id, client, seat, is_bridge },
                )
                &&& final(self).sources_view() == old(self).sources_view()
                &&& final(self).offers_view() == old(self).offers_view()
                &&& final(self).seats_view() == old(self).seats_view()
                &&& final(self).next_offer_id == old(self).next_offer_id
                &&& final(self).next_serial == old(self).next_serial
                &&& final(self).has_device(id)
                &&& final(self).device_state(id) == Device { id, client, seat, is_bridge }
                &&& forall|d: DeviceId|
                    d != id ==> (final(self).has_device(d) <==> old(self).has_device(d))
            },
    {
        let mut i: usize = 0;
        while i < self.devices.len()
            invariant
                0 <= i <= self.devices@.len(),
                forall|j: int|
                    0 <= j < i ==> !((#[trigger] self.devices@[j]).client == client
                        && self.devices@[j].seat == seat),
            decreases self.devices@.len() - i,
        {
            if self.devices[i].client == client && self.devices[i].seat == seat {
                return Err(IpcError::DeviceAlreadyExists);
            }
            i = i + 1;
        }
        let d = Device { id, client, seat, is_bridge };
        self.devices.push(d);
        proof {
            let okeys = device_keys(old(self).devices@);
            let keys = device_keys(self.devices@);
            assert(keys =~= okeys.push(id.0));
            lemma_key_index(okeys, id.0);
            lemma_has_key_push(okeys, id.0, id.0);
            assert(keys[keys.len() - 1] == id.0);
            assert(self.has_device(id));
            assert(self.device_index(id) == self.devices@.len() - 1);
            assert forall|i: int, j: int|
                0 <= i < j < self.devices@.len() implies self.devices@[i].id
                != self.devices@[j].id by {
                if j == self.devices@.len() - 1 {
                    assert(okeys[i] != id.0);
                    assert(okeys[i] == self.devices@[i].id.0);
                }
            }
            assert forall|d: DeviceId| d != id implies (self.has_device(d) <==> old(
                self,
            ).has_device(d)) by {
                lemma_has_key_push(okeys, id.0, d.0);
            }
            assert(self.wf());
        }
        Ok(())
    }

    /// Register a fresh source for `client`. A new source advertises no
    /// mime types and is not cancelled; it becomes active only through
    /// `set_selection`.
    pub fn create_source(&mut self, id: SourceId, client: ClientId)
        requires
            old(self).wf(),
            !old(self).has_source(id),
        ensures
            final(self).wf(),
            final(self).devices_view() == old(self).devices_view(),
            final(self).offers_view() == old(self).offers_view(),
            final(self).seats_view() == old(self).seats_view(),
            final(self).next_offer_id == old(self).next_offer_id,
            final(self).next_serial == old(self).next_serial,
            final(self).sources_view().len() == old(self).sources_view().len() + 1,
            final(self).sources_view().take(old(self).sources_view().len() as int) =~= old(
                self,
            ).sources_view(),
            final(self).has_source(id),
            final(self).source_index(id) == old(self).sources_view().len(),
            final(self).source_state(id).id == id,
            final(self).source_state(id).client == client,
            final(self).source_state(id).cancelled == false,
            final(self).source_state(id).mime_types@ =~= Seq::<String>::empty(),
            forall|s: SourceId|
                old(self).has_source(s) ==> final(self).has_source(s) && final(self).source_index(
                    s,
                ) == old(self).source_index(s),
    {
        let s = Source { id, client, mime_types: Vec::new(), cancelled: false };
        self.sources.push(s);
        proof {
            let okeys = source_keys(old(self).sources@);
            let keys = source_keys(self.sources@);
            assert(keys =~= okeys.push(id.0));
            lemma_key_index(okeys, id.0);
            lemma_has_key_push(okeys, id.0, id.0);
            assert(keys[keys.len() - 1] == id.0);
            assert forall|s: SourceId| old(self).has_source(s) implies self.has_source(s)
                && self.source_index(s) == old(self).source_index(s) by {
                lemma_has_key_push(okeys, id.0, s.0);
            }
            assert forall|i: int, j: int|
                0 <= i < j < self.sources@.len() implies self.sources@[i].id
                != self.sources@[j].id by {
                if j == self.sources@.len() - 1 {
                    lemma_key_index(okeys, id.0);
                    assert(okeys[i] != id.0);
                    assert(okeys[i] == self.sources@[i].id.0);
                }
            }
            assert forall|i: int|
                0 <= i < self.seats@.len() implies match #[trigger] self.seats@[i].active {
                Some(s) => has_key(keys, s.0) && !self.sources@[key_index(keys, s.0)].cancelled,
                None => true,
            } by {
                assert(self.seats@ == old(self).seats@);
                match self.seats@[i].active {
                    Some(s) => {
                        assert(old(self).seats@[i].active == Some(s));
                        assert(has_key(okeys, s.0));
                        lemma_has_key_push(okeys, id.0, s.0);
                        lemma_key_index(okeys, s.0);
                        assert(self.sources@[key_index(keys, s.0)] == old(self).sources@[key_index(
                            okeys,
                            s.0,
                        )]);
                    },
                    None => {},
                }
            }
            assert forall|i: int|
                0 <= i < self.offers@.len() implies has_key(
                keys,
                (#[trigger] self.offers@[i]).source.0,
            ) by {
                lemma_has_key_push(okeys, id.0, self.offers@[i].source.0);
            }
            assert forall|k: int|
                0 <= k < self.offers@.len() implies self.offer_backed(
                #[trigger] self.offers@[k],
            ) by {
                let o = self.offers@[k];
                assert(old(self).offer_backed(o));
                assert(has_key(okeys, o.source.0));
                lemma_key_index(okeys, o.source.0);
                lemma_has_key_push(okeys, id.0, o.source.0);
                assert(self.sources@[key_index(keys, o.source.0)] == old(self).sources@[key_index(
                    okeys,
                    o.source.0,
                )]);
                assert(self.seats@ == old(self).seats@);
            }
            assert(self.wf());
        }
    }

    /// Record one more advertised mime type on a source. Mime types only
    /// accumulate; nothing else about the engine changes.
    pub fn source_add_mime(&mut self, src: SourceId, mime: String)
        requires
            old(self).wf(),
            old(self).has_source(src),
        ensures
            final(self).wf(),
            final(self).devices_view() == old(self).devices_view(),
            final(self).offers_view() == old(self).offers_view(),
            final(self).seats_view() == old(self).seats_view(),
            final(self).next_offer_id == old(self).next_offer_id,
            final(self).next_serial == old(self).next_serial,
            source_keys(final(self).sources_view()) == source_keys(old(self).sources_view()),
            final(self).source_state(src).id == old(self).source_state(src).id,
            final(self).source_state(src).client == old(self).source_state(src).client,
            final(self).source_state(src).cancelled == old(self).source_state(src).cancelled,
            final(self).source_state(src).mime_types@ =~= old(self).source_state(
                src,
            ).mime_types@.push(mime),
            final(self).source_mimes(src) =~= old(self).source_mimes(src).push(mime@),
            forall|i: int|
                0 <= i < final(self).sources_view().len() && i != old(self).source_index(src)
                    ==> final(self).sources_view()[i] == old(self).sources_view()[i],
    {
        let i = self.find_source(src);
        self.sources[i].mime_types.push(mime);
        proof {
            assert(source_keys(self.sources@) =~= source_keys(old(self).sources@));
            assert(self.source_index(src) == old(self).source_index(src));
            assert forall|i: int|
                0 <= i < self.seats@.len() implies match #[trigger] self.seats@[i].active {
                Some(s) => has_key(source_keys(self.sources@), s.0) && !self.sources@[key_index(
                    source_keys(self.sources@),
                    s.0,
                )].cancelled,
                None => true,
            } by {
                assert(self.seats@ == old(self).seats@);
                match self.seats@[i].active {
                    Some(s) => {
                        assert(old(self).seats@[i].active == Some(s));
                        assert(has_key(source_keys(old(self).sources@), s.0));
                        lemma_key_index(source_keys(old(self).sources@), s.0);
                        let idx = key_index(source_keys(old(self).sources@), s.0);
                        assert(key_index(source_keys(self.sources@), s.0) == idx);
                        assert(self.sources@[idx].cancelled == old(self).sources@[idx].cancelled);
                    },
                    None => {},
                }
            }
            assert forall|i2: int|
                0 <= i2 < self.sources@.len() implies (!(#[trigger] self.sources@[i2]).cancelled
                ==> !old(self).sources@[i2].cancelled) by {
                assert(self.sources@[i2].cancelled == old(self).sources@[i2].cancelled);
            }
            assert forall|j: int|
                0 <= j < self.seats@.len() implies match (#[trigger] old(self).seats@[j]).active {
                Some(t) => !has_key(source_keys(old(self).sources@), t.0)
                    || self.sources@[key_index(source_keys(old(self).sources@), t.0)].cancelled
                    || self.seats@[j].active == Some(t),
                None => true,
            } by {
                assert(self.seats@[j].active == old(self).seats@[j].active);
            }
            lemma_offer_backing_carries(*old(self), *self);
            assert(self.wf());
            assert(self.source_mimes(src) =~= old(self).source_mimes(src).push(mime@));
        }
    }

    /// A serial authorizes a change when it was issued to the requesting
    /// client on this seat and is not older than the last accepted serial.
    pub open spec fn spec_serial_valid(self, seat: SeatId, client: ClientId, serial: u64) -> bool {
        serial_issued(self.seat_state(seat).issued@, client, serial) && serial >= self.seat_state(
            seat,
        ).last_accepted_serial
    }

    /// Stamp a fresh serial for `client` on `seat` and record it as issued.
    /// Serials are globally monotonic.
    #[verifier::loop_isolation(false)]
    pub fn issue_serial(&mut self, seat: SeatId, client: ClientId) -> (r: u64)
        requires
            old(self).wf(),
            old(self).has_seat(seat),
            old(self).next_serial < u64::MAX,
        ensures
            final(self).wf(),
            r == old(self).next_serial,
            final(self).next_serial == old(self).next_serial + 1,
            final(self).devices_view() == old(self).devices_view(),
            final(self).sources_view() == old(self).sources_view(),
            final(self).offers_view() == old(self).offers_view(),
            final(self).next_offer_id == old(self).next_offer_id,
            seat_keys(final(self).seats_view()) == seat_keys(old(self).seats_view()),
            forall|i: int|
                0 <= i < final(self).seats_view().len() && i != old(self).seat_index(seat)
                    ==> final(self).seats_view()[i] == old(self).seats_view()[i],
            final(self).seat_state(seat).seat == old(self).seat_state(seat).seat,
            final(self).seat_state(seat).active == old(self).seat_state(seat).active,
            final(self).seat_state(seat).last_accepted_serial == old(self).seat_state(
                seat,
            ).last_accepted_serial,
            final(self).seat_state(seat).suppressed == old(self).seat_state(seat).suppressed,
            serials_of(final(self).seat_state(seat).issued@, client) =~= serials_of(
                old(self).seat_state(seat).issued@,
                client,
            ).push(r),
    {
        let si = self.find_seat(seat);
        let serial = self.next_serial;
        self.next_serial = self.next_serial + 1;
        let ghost oissued = old(self).seats@[si as int].issued@;
        let mut j: usize = 0;
        let n = self.seats[si].issued.len();
        while j < n
            invariant
                0 <= j <= n,
                n == self.seats@[si as int].issued@.len(),
                si < self.seats@.len(),
                self.devices@ == old(self).devices@,
                self.sources@ == old(self).sources@,
                self.offers@ == old(self).offers@,
                self.seats@ == old(self).seats@,
                self.next_offer_id == old(self).next_offer_id,
                self.next_serial == old(self).next_serial + 1,
                self.seats@[si as int].issued@ == oissued,
                forall|p: int| 0 <= p < j ==> client_serial_keys(oissued)[p] != client.0,
            decreases n - j,
        {
            if self.seats[si].issued[j].client == client {
                proof {
                    lemma_key_index(client_serial_keys(oissued), client.0);
                    assert(client_serial_keys(oissued)[j as int] == client.0);
                }
                self.seats[si].issued[j].serials.push(serial);
                proof {
                    assert(client_serial_keys(self.seats@[si as int].issued@)
                        =~= client_serial_keys(oissued));
                    lemma_key_index(client_serial_keys(oissued), client.0);
                    assert(serials_of(self.seats@[si as int].issued@, client) =~= serials_of(
                        oissued,
                        client,
                    ).push(serial));
                    assert(seat_keys(self.seats@) =~= seat_keys(old(self).seats@));
                    assert(self.seat_index(seat) == old(self).seat_index(seat));
                    assert forall|i2: int|
                        0 <= i2 < self.sources@.len() implies (!(
                    #[trigger] self.sources@[i2]).cancelled ==> !old(
                        self,
                    ).sources@[i2].cancelled) by {}
                    assert forall|j2: int|
                        0 <= j2 < self.seats@.len() implies match (
                    #[trigger] old(self).seats@[j2]).active {
                        Some(t) => !has_key(source_keys(old(self).sources@), t.0)
                            || self.sources@[key_index(
                            source_keys(old(self).sources@),
                            t.0,
                        )].cancelled || self.seats@[j2].active == Some(t),
                        None => true,
                    } by {
                        assert(self.seats@[j2].active == old(self).seats@[j2].active);
                    }
                    lemma_offer_backing_carries(*old(self), *self);
                    assert(self.wf());
                }
                return serial;
            }
            j = j + 1;
        }
        proof {
            lemma_key_index(client_serial_keys(oissued), client.0);
        }
        let mut fresh: Vec<u64> = Vec::new();
        fresh.push(serial);
        self.seats[si].issued.push(ClientSerials { client, serials: fresh });
        proof {
            let okeys = client_serial_keys(oissued);
            let keys = client_serial_keys(self.seats@[si as int].issued@);
            assert(keys =~= okeys.push(client.0));
            lemma_has_key_push(okeys, client.0, client.0);
            assert(!has_key(okeys, client.0));
            assert(serials_of(oissued, client) =~= Seq::<u64>::empty());
            assert(self.seats@[si as int].issued@[oissued.len() as int].serials@ =~= seq![serial]);
            assert(serials_of(self.seats@[si as int].issued@, client) =~= serials_of(
                oissued,
                client,
            ).push(serial));
            assert(seat_keys(self.seats@) =~= seat_keys(old(self).seats@));
            assert(self.seat_index(seat) == old(self).seat_index(seat));
            assert forall|i2: int|
                0 <= i2 < self.sources@.len() implies (!(#[trigger] self.sources@[i2]).cancelled
                ==> !old(self).sources@[i2].cancelled) by {}
            assert forall|j2: int|
                0 <= j2 < self.seats@.len() implies match (#[trigger] old(self).seats@[j2]).active {
                Some(t) => !has_key(source_keys(old(self).sources@), t.0)
                    || self.sources@[key_index(source_keys(old(self).sources@), t.0)].cancelled
                    || self.seats@[j2].active == Some(t),
                None => true,
            } by {
                assert(self.seats@[j2].active == old(self).seats@[j2].active);
            }
            lemma_offer_backing_carries(*old(self), *self);
            assert(self.wf());
        }
        serial
    }

    /// Whether `serial` currently authorizes a selection change by `client`
    /// on `seat`.
    #[verifier::loop_isolation(false)]
    pub fn serial_valid(&self, seat: SeatId, client: ClientId, serial: u64) -> (r: bool)
        requires
            self.wf(),
            self.has_seat(seat),
        ensures
            r == self.spec_serial_valid(seat, client, serial),
    {
        let si = self.find_seat(seat);
        if serial < self.seats[si].last_accepted_serial {
            return false;
        }
        let ghost issued = self.seats@[si as int].issued@;
        let mut j: usize = 0;
        let n = self.seats[si].issued.len();
        while j < n
            invariant
                0 <= j <= n,
                n == issued.len(),
                si < self.seats@.len(),
                self.seats@[si as int].issued@ == issued,
                forall|p: int| 0 <= p < j ==> client_serial_keys(issued)[p] != client.0,
            decreases n - j,
        {
            if self.seats[si].issued[j].client == client {
                proof {
                    lemma_key_index(client_serial_keys(issued), client.0);
                    assert(client_serial_keys(issued)[j as int] == client.0);
                }
                let serials = &self.seats[si].issued[j].serials;
                let mut p: usize = 0;
                let m = serials.len();
                while p < m
                    invariant
                        0 <= p <= m,
                        m == serials@.len(),
                        forall|q: int| 0 <= q < p ==> serials@[q] != serial,
                    decreases m - p,
                {
                    if serials[p] == serial {
                        return true;
                    }
                    p = p + 1;
                }
                proof {
                    assert(!serials_of(issued, client).contains(serial));
                }
                return false;
            }
            j = j + 1;
        }
        proof {
            lemma_key_index(client_serial_keys(issued), client.0);
            assert(!has_key(client_serial_keys(issued), client.0));
        }
        false
    }

    /// Forward a recipient's "send me this mime type" request to the
    /// offer's source. The engine checks that the offer is still live and
    /// that the mime type was advertised; it never touches the payload and
    /// never changes any state, so a failed request leaves the offer as
    /// valid as it was.
    #[verifier::loop_isolation(false)]
    pub fn offer_request_data(&self, offer: OfferId, mime_type: String, sink_fd: i32) -> (r:
        Result<Notification, IpcError>)
        requires
            self.wf(),
            self.has_offer(offer),
        ensures
            ({
                let o = self.offer_state(offer);
                let src = self.source_state(o.source);
                if src.cancelled {
                    r == Err::<Notification, IpcError>(IpcError::OfferStale)
                } else if !self.source_mimes(o.source).contains(mime_type@) {
                    r == Err::<Notification, IpcError>(IpcError::MimeTypeNotOffered)
                } else {
                    r == Ok::<Notification, IpcError>(
                        Notification::TransferRequest {
                            client: src.client,
                            source: o.source,
                            mime_type,
                            sink_fd,
                        },
                    )
                }
            }),
    {
        let oi = self.find_offer(offer);
        let src_id = self.offers[oi].source;
        let sx = self.find_source(src_id);
        proof {
            assert(has_key(source_keys(self.sources@), src_id.0));
        }
        if self.sources[sx].cancelled {
            return Err(IpcError::OfferStale);
        }
        let n = self.sources[sx].mime_types.len();
        let mut j: usize = 0;
        let mut found = false;
        while j < n
            invariant
                0 <= j <= n,
                sx < self.sources@.len(),
                n == self.sources@[sx as int].mime_types@.len(),
                found ==> self.source_mimes(src_id).contains(mime_type@),
                !found ==> forall|q: int|
                    0 <= q < j ==> self.sources@[sx as int].mime_types@[q]@ != mime_type@,
            decreases n - j,
        {
            if !found && self.sources[sx].mime_types[j] == mime_type {
                proof {
                    assert(self.source_mimes(src_id)[j as int] == mime_type@);
                }
                found = true;
            }
            j = j + 1;
        }
        if !found {
            proof {
                assert forall|q: int|
                    0 <= q < self.source_mimes(src_id).len() implies self.source_mimes(src_id)[q]
                    != mime_type@ by {
                    assert(self.source_mimes(src_id)[q] == self.sources@[sx as int].mime_types@[q]@);
                }
            }
            return Err(IpcError::MimeTypeNotOffered);
        }
        let client = self.sources[sx].client;
        Ok(Notification::TransferRequest { client, source: src_id, mime_type, sink_fd })
    }

    /// Remove a device from its seat's table. Idempotent: destroying an
    /// unknown (already destroyed) device changes nothing. Devices of every
    /// other client — indeed every other device — are left exactly as they
    /// were, and no source or offer is touched.
    #[verifier::loop_isolation(false)]
    pub fn destroy_device(&mut self, device: DeviceId)
        requires
            old(self).wf(),
        ensures
            final(self).wf(),
            !final(self).has_device(device),
            final(self).sources_view() == old(self).sources_view(),
            final(self).offers_view() == old(self).offers_view(),
            final(self).seats_view() == old(self).seats_view(),
            final(self).next_offer_id == old(self).next_offer_id,
            final(self).next_serial == old(self).next_serial,
            !old(self).has_device(device) ==> *final(self) == *old(self),
            old(self).has_device(device) ==> final(self).devices_view() =~= old(
                self,
            ).devices_view().remove(old(self).device_index(device)),
    {
        let i = self.find_device(device);
        if i >= self.devices.len() {
            return ;
        }
        proof {
            lemma_key_index(device_keys(self.devices@), device.0);
        }
        self.devices.remove(i);
        proof {
            let odevs = old(self).devices@;
            assert(self.devices@ =~= odevs.remove(i as int));
            assert forall|k1: int, k2: int|
                0 <= k1 < k2 < self.devices@.len() implies self.devices@[k1].id
                != self.devices@[k2].id by {
                let m1: int = if k1 < i as int {
                    k1
                } else {
                    k1 + 1
                };
                let m2: int = if k2 < i as int {
                    k2
                } else {
                    k2 + 1
                };
                assert(self.devices@[k1] == odevs[m1]);
                assert(self.devices@[k2] == odevs[m2]);
            }
            assert forall|k: int|
                0 <= k < self.devices@.len() implies has_key(
                seat_keys(self.seats@),
                (#[trigger] self.devices@[k]).seat.0,
            ) by {
                let m: int = if k < i as int {
                    k
                } else {
                    k + 1
                };
                assert(self.devices@[k] == odevs[m]);
            }
            assert(self.wf());
            // The removed id occurred exactly once, so it is gone.
            let keys = device_keys(self.devices@);
            lemma_key_index(keys, device.0);
            if has_key(keys, device.0) {
                let k = key_index(keys, device.0);
                let m: int = if k < i as int {
                    k
                } else {
                    k + 1
                };
                assert(self.devices@[k] == odevs[m]);
                assert(odevs[m].id.0 == device.0);
                assert(odevs[i as int].id.0 == device.0);
                assert(odevs[m].id == odevs[i as int].id);
                assert(false);
            }
        }
    }

    /// Teardown hook run at client disconnect: eagerly unlink a device from
    /// its seat so no stale back-reference survives. Safe to call
    /// redundantly; equivalent to destroying the device.
    pub fn break_device_loops(&mut self, device: DeviceId)
        requires
            old(self).wf(),
        ensures
            final(self).wf(),
            !final(self).has_device(device),
            final(self).sources_view() == old(self).sources_view(),
            final(self).offers_view() == old(self).offers_view(),
            final(self).seats_view() == old(self).seats_view(),
            final(self).next_offer_id == old(self).next_offer_id,
            final(self).next_serial == old(self).next_serial,
            !old(self).has_device(device) ==> *final(self) == *old(self),
            old(self).has_device(device) ==> final(self).devices_view() =~= old(
                self,
            ).devices_view().remove(old(self).device_index(device)),
    {
        self.destroy_device(device);
    }

    /// Record whether a conflicting role (a drag in progress) currently
    /// holds the seat. While set, `set_selection` requests are suppressed.
    pub fn set_suppressed(&mut self, seat: SeatId, suppressed: bool)
        requires
            old(self).wf(),
            old(self).has_seat(seat),
        ensures
            final(self).wf(),
            final(self).devices_view() == old(self).devices_view(),
            final(self).sources_view() == old(self).sources_view(),
            final(self).offers_view() == old(self).offers_view(),
            final(self).next_offer_id == old(self).next_offer_id,
            final(self).next_serial == old(self).next_serial,
            seat_keys(final(self).seats_view()) == seat_keys(old(self).seats_view()),
            forall|i: int|
                0 <= i < old(self).seats_view().len() && i != old(self).seat_index(seat)
                    ==> final(self).seats_view()[i] == old(self).seats_view()[i],
            final(self).seat_state(seat).seat == old(self).seat_state(seat).seat,
            final(self).seat_state(seat).active == old(self).seat_state(seat).active,
            final(self).seat_state(seat).last_accepted_serial == old(self).seat_state(
                seat,
            ).last_accepted_serial,
            final(self).seat_state(seat).issued == old(self).seat_state(seat).issued,
            final(self).seat_state(seat).suppressed == suppressed,
    {
        let si = self.find_seat(seat);
        self.seats[si].suppressed = suppressed;
        proof {
            assert(seat_keys(self.seats@) =~= seat_keys(old(self).seats@));
            assert(self.seat_index(seat) == old(self).seat_index(seat));
            assert forall|i: int, j: int|
                #![trigger self.seats@[i].active, self.seats@[j].active]
                0 <= i < j < self.seats@.len() implies !(self.seats@[i].active is Some
                && self.seats@[i].active == self.seats@[j].active) by {
                assert(self.seats@[i].active == old(self).seats@[i].active);
                assert(self.seats@[j].active == old(self).seats@[j].active);
            }
            assert forall|i2: int|
                0 <= i2 < self.sources@.len() implies (!(#[trigger] self.sources@[i2]).cancelled
                ==> !old(self).sources@[i2].cancelled) by {}
            assert forall|j2: int|
                0 <= j2 < self.seats@.len() implies match (#[trigger] old(self).seats@[j2]).active {
                Some(t) => !has_key(source_keys(old(self).sources@), t.0)
                    || self.sources@[key_index(source_keys(old(self).sources@), t.0)].cancelled
                    || self.seats@[j2].active == Some(t),
                None => true,
            } by {
                assert(self.seats@[j2].active == old(self).seats@[j2].active);
            }
            lemma_offer_backing_carries(*old(self), *self);
            assert(self.wf());
        }
    }

    /// Forcibly clear the seat's active source without a client request —
    /// the path taken when a mutually exclusive role (a drag) begins or
    /// ends. Never fails: the previous source (if any) is cancelled with
    /// one notification to its owner, and every device of the seat is told
    /// the selection is now empty. Serial bookkeeping and suppression are
    /// left alone.
    #[verifier::loop_isolation(false)]
    pub fn unset(&mut self, seat: SeatId) -> (r: Vec<Notification>)
        requires
            old(self).wf(),
            old(self).has_seat(seat),
        ensures
            final(self).wf(),
            final(self).devices_view() == old(self).devices_view(),
            final(self).offers_view() == old(self).offers_view(),
            final(self).next_offer_id == old(self).next_offer_id,
            final(self).next_serial == old(self).next_serial,
            final(self).active_source(seat) is None,
            ({
                let prev = old(self).seat_state(seat).active;
                let cancel = match prev {
                    Some(p) => seq![
                        Notification::Cancelled {
                            client: old(self).source_state(p).client,
                            source: p,
                        },
                    ],
                    None => Seq::<Notification>::empty(),
                };
                &&& r@ =~= cancel + clear_notifs(old(self).devices_view(), seat)
                &&& match prev {
                    Some(p) => final(self).source_state(p).cancelled,
                    None => true,
                }
                &&& source_keys(final(self).sources_view()) == source_keys(
                    old(self).sources_view(),
                )
                &&& match prev {
                    Some(p) => forall|i: int|
                        0 <= i < old(self).sources_view().len() && i != old(self).source_index(p)
                            ==> final(self).sources_view()[i] == old(self).sources_view()[i],
                    None => final(self).sources_view() == old(self).sources_view(),
                }
                &&& seat_keys(final(self).seats_view()) == seat_keys(old(self).seats_view())
                &&& forall|i: int|
                    0 <= i < old(self).seats_view().len() && i != old(self).seat_index(seat)
                        ==> final(self).seats_view()[i] == old(self).seats_view()[i]
                &&& final(self).seat_state(seat).suppressed == old(self).seat_state(
                    seat,
                ).suppressed
                &&& final(self).seat_state(seat).issued == old(self).seat_state(seat).issued
                &&& final(self).seat_state(seat).last_accepted_serial == old(self).seat_state(
                    seat,
                ).last_accepted_serial
            }),
    {
        let si = self.find_seat(seat);
        let mut notifs: Vec<Notification> = Vec::new();
        let prev = self.seats[si].active;
        if let Some(p) = prev {
            let pi = self.find_source(p);
            let pclient = self.sources[pi].client;
            self.sources[pi].cancelled = true;
            notifs.push(Notification::Cancelled { client: pclient, source: p });
            proof {
                assert(source_keys(self.sources@) =~= source_keys(old(self).sources@));
                assert(old(self).source_state(p).client == pclient);
                assert(self.sources@[key_index(source_keys(old(self).sources@), p.0)].cancelled);
            }
        }
        self.seats[si].active = None;
        proof {
            assert(seat_keys(self.seats@) =~= seat_keys(old(self).seats@));
            assert(self.seat_index(seat) == old(self).seat_index(seat));
            assert forall|i: int|
                0 <= i < self.seats@.len() && i != si as int implies match #[trigger] self.seats@[i].active {
                Some(t) => has_key(source_keys(self.sources@), t.0) && !self.sources@[key_index(
                    source_keys(self.sources@),
                    t.0,
                )].cancelled,
                None => true,
            } by {
                match self.seats@[i].active {
                    Some(t) => {
                        assert(old(self).seats@[i].active == Some(t));
                        match prev {
                            Some(p) => {
                                assert(old(self).seats@[si as int].active == Some(p));
                                lemma_key_index(source_keys(old(self).sources@), t.0);
                                lemma_key_index(source_keys(old(self).sources@), p.0);
                            },
                            None => {},
                        }
                    },
                    None => {},
                }
            }
            assert(source_keys(self.sources@) =~= source_keys(old(self).sources@));
            assert forall|i2: int|
                0 <= i2 < self.sources@.len() implies (!(#[trigger] self.sources@[i2]).cancelled
                ==> !old(self).sources@[i2].cancelled) by {}
            assert forall|j2: int|
                0 <= j2 < self.seats@.len() implies match (#[trigger] old(self).seats@[j2]).active {
                Some(t) => !has_key(source_keys(old(self).sources@), t.0)
                    || self.sources@[key_index(source_keys(old(self).sources@), t.0)].cancelled
                    || self.seats@[j2].active == Some(t),
                None => true,
            } by {
                if j2 != si as int {
                    assert(self.seats@[j2].active == old(self).seats@[j2].active);
                }
            }
            lemma_offer_backing_carries(*old(self), *self);
        }
        let ghost devs = self.devices@;
        let ghost notifs0 = notifs@;
        proof {
            assert(devs.skip(0) =~= devs);
        }
        let mut i: usize = 0;
        while i < self.devices.len()
            invariant
                0 <= i <= devs.len(),
                self.devices@ == devs,
                notifs0 + clear_notifs(devs, seat) =~= notifs@ + clear_notifs(
                    devs.skip(i as int),
                    seat,
                ),
            decreases devs.len() - i,
        {
            let dd = self.devices[i];
            proof {
                assert(devs.skip(i as int).skip(1) =~= devs.skip(i as int + 1));
                assert(devs.skip(i as int)[0] == devs[i as int]);
            }
            if dd.seat == seat {
                if dd.is_bridge {
                    notifs.push(Notification::BridgeSetSelection { seat, offer: None });
                } else {
                    notifs.push(
                        Notification::SelectionIs { client: dd.client, device: dd.id, offer: None },
                    );
                }
            }
            proof {
                assert(notifs0 + clear_notifs(devs, seat) =~= notifs@ + clear_notifs(
                    devs.skip(i as int + 1),
                    seat,
                ));
            }
            i = i + 1;
        }
        proof {
            assert(devs.skip(devs.len() as int) =~= Seq::<Device>::empty());
            assert(notifs@ =~= notifs0 + clear_notifs(devs, seat));
            assert(self.wf());
        }
        notifs
    }

    /// Retire a source: mark it cancelled and detach it from any seat whose
    /// selection it was. Idempotent, silent (structural teardown precedes
    /// any client-facing notification), and permanent — a cancelled source
    /// never becomes active again, so every offer derived from it is stale
    /// from here on.
    #[verifier::loop_isolation(false)]
    pub fn destroy_source(&mut self, src: SourceId)
        requires
            old(self).wf(),
        ensures
            final(self).wf(),
            final(self).devices_view() == old(self).devices_view(),
            final(self).offers_view() == old(self).offers_view(),
            final(self).next_offer_id == old(self).next_offer_id,
            final(self).next_serial == old(self).next_serial,
            !old(self).has_source(src) ==> *final(self) == *old(self),
            !final(self).source_in_use(src),
            old(self).has_source(src) ==> {
                &&& source_keys(final(self).sources_view()) == source_keys(old(self).sources_view())
                &&& final(self).source_state(src).cancelled
                &&& final(self).source_state(src).id == old(self).source_state(src).id
                &&& final(self).source_state(src).client == old(self).source_state(src).client
                &&& final(self).source_state(src).mime_types == old(self).source_state(
                    src,
                ).mime_types
                &&& forall|i: int|
                    0 <= i < old(self).sources_view().len() && i != old(self).source_index(src)
                        ==> final(self).sources_view()[i] == old(self).sources_view()[i]
                &&& seat_keys(final(self).seats_view()) == seat_keys(old(self).seats_view())
                &&& forall|i: int|
                    0 <= i < old(self).seats_view().len() ==> {
                        let o = old(self).seats_view()[i];
                        let f = #[trigger] final(self).seats_view()[i];
                        &&& f.seat == o.seat
                        &&& f.last_accepted_serial == o.last_accepted_serial
                        &&& f.suppressed == o.suppressed
                        &&& f.issued == o.issued
                        &&& f.active == (if o.active == Some(src) {
                            None
                        } else {
                            o.active
                        })
                    }
            },
    {
        let sx = self.find_source(src);
        if sx >= self.sources.len() {
            proof {
                assert forall|i: int|
                    0 <= i < self.seats@.len() implies (#[trigger] self.seats@[i]).active != Some(
                    src,
                ) by {
                    match self.seats@[i].active {
                        Some(t) => {
                            if t == src {
                                lemma_key_index(source_keys(self.sources@), t.0);
                            }
                        },
                        None => {},
                    }
                }
            }
            return ;
        }
        self.sources[sx].cancelled = true;
        let ghost seats_mid = self.seats@;
        proof {
            assert(source_keys(self.sources@) =~= source_keys(old(self).sources@));
        }
        let mut j: usize = 0;
        while j < self.seats.len()
            invariant
                0 <= j <= self.seats@.len(),
                self.seats@.len() == seats_mid.len(),
                self.devices@ == old(self).devices@,
                self.sources@ == old(self).sources@.update(
                    sx as int,
                    Source {
                        cancelled: true,
                        ..old(self).sources@[sx as int]
                    },
                ),
                self.offers@ == old(self).offers@,
                self.next_offer_id == old(self).next_offer_id,
                self.next_serial == old(self).next_serial,
                seats_mid == old(self).seats@,
                forall|k: int|
                    j <= k < self.seats@.len() ==> #[trigger] self.seats@[k] == seats_mid[k],
                forall|k: int|
                    0 <= k < j ==> {
                        let o = seats_mid[k];
                        let f = #[trigger] self.seats@[k];
                        &&& f.seat == o.seat
                        &&& f.last_accepted_serial == o.last_accepted_serial
                        &&& f.suppressed == o.suppressed
                        &&& f.issued == o.issued
                        &&& f.active == (if o.active == Some(src) {
                            None
                        } else {
                            o.active
                        })
                    },
            decreases self.seats@.len() - j,
        {
            let clear = match self.seats[j].active {
                Some(p) => p == src,
                None => false,
            };
            if clear {
                self.seats[j].active = None;
            }
            j = j + 1;
        }
        proof {
            lemma_key_index(source_keys(old(self).sources@), src.0);
            assert(seat_keys(self.seats@) =~= seat_keys(old(self).seats@));
            assert forall|i: int|
                0 <= i < self.seats@.len() implies match #[trigger] self.seats@[i].active {
                Some(t) => has_key(source_keys(self.sources@), t.0) && !self.sources@[key_index(
                    source_keys(self.sources@),
                    t.0,
                )].cancelled,
                None => true,
            } by {
                match self.seats@[i].active {
                    Some(t) => {
                        assert(old(self).seats@[i].active == Some(t));
                        assert(t != src);
                        lemma_key_index(source_keys(old(self).sources@), t.0);
                        assert(key_index(source_keys(old(self).sources@), t.0) != sx as int);
                    },
                    None => {},
                }
            }
            assert forall|i: int, j2: int|
                #![trigger self.seats@[i].active, self.seats@[j2].active]
                0 <= i < j2 < self.seats@.len() implies !(self.seats@[i].active is Some
                && self.seats@[i].active == self.seats@[j2].active) by {
                assert(self.seats@[i].active is Some ==> self.seats@[i].active == old(
                    self,
                ).seats@[i].active);
                assert(self.seats@[j2].active is Some ==> self.seats@[j2].active == old(
                    self,
                ).seats@[j2].active);
            }
            assert forall|i2: int|
                0 <= i2 < self.sources@.len() implies (!(#[trigger] self.sources@[i2]).cancelled
                ==> !old(self).sources@[i2].cancelled) by {}
            assert forall|j2: int|
                0 <= j2 < self.seats@.len() implies match (#[trigger] old(self).seats@[j2]).active {
                Some(t) => !has_key(source_keys(old(self).sources@), t.0)
                    || self.sources@[key_index(source_keys(old(self).sources@), t.0)].cancelled
                    || self.seats@[j2].active == Some(t),
                None => true,
            } by {
                match old(self).seats@[j2].active {
                    Some(t) => {
                        if t == src {
                            assert(self.sources@[key_index(
                                source_keys(old(self).sources@),
                                src.0,
                            )].cancelled);
                        } else {
                            assert(self.seats@[j2].active == Some(t));
                        }
                    },
                    None => {},
                }
            }
            lemma_offer_backing_carries(*old(self), *self);
            assert(self.wf());
            assert forall|i: int|
                0 <= i < self.seats@.len() implies (#[trigger] self.seats@[i]).active != Some(
                src,
            ) by {}
        }
    }

    /// Teardown hook run at client disconnect: eagerly break a source's
    /// back-references. Safe to call redundantly; equivalent to destroying
    /// the source.
    pub fn break_source_loops(&mut self, src: SourceId)
        requires
            old(self).wf(),
        ensures
            final(self).wf(),
            final(self).devices_view() == old(self).devices_view(),
            final(self).offers_view() == old(self).offers_view(),
            final(self).next_offer_id == old(self).next_offer_id,
            final(self).next_serial == old(self).next_serial,
            !old(self).has_source(src) ==> *final(self) == *old(self),
            !final(self).source_in_use(src),
            old(self).has_source(src) ==> final(self).source_state(src).cancelled
                && source_keys(final(self).sources_view()) == source_keys(old(self).sources_view()),
    {
        self.destroy_source(src);
    }

    /// Whether a source with this id is known to the engine.
    pub fn source_exists(&self, src: SourceId) -> (r: bool)
        ensures
            r == self.has_source(src),
    {
        let i = self.find_source(src);
        i < self.sources.len()
    }

    /// The client that owns a source.
    pub fn source_client(&self, src: SourceId) -> (r: ClientId)
        requires
            self.has_source(src),
        ensures
            r == self.source_state(src).client,
    {
        let i = self.find_source(src);
        self.sources[i].client
    }

    /// Whether a source has been cancelled.
    pub fn source_cancelled(&self, src: SourceId) -> (r: bool)
        requires
            self.has_source(src),
        ensures
            r == self.source_state(src).cancelled,
    {
        let i = self.find_source(src);
        self.sources[i].cancelled
    }

    /// Whether a source is currently some seat's active selection.
    #[verifier::loop_isolation(false)]
    pub fn source_is_in_use(&self, src: SourceId) -> (r: bool)
        ensures
            r == self.source_in_use(src),
    {
        let mut i: usize = 0;
        while i < self.seats.len()
            invariant
                0 <= i <= self.seats@.len(),
                forall|k: int| 0 <= k < i ==> (#[trigger] self.seats@[k]).active != Some(src),
            decreases self.seats@.len() - i,
        {
            let hit = match self.seats[i].active {
                Some(p) => p == src,
                None => false,
            };
            if hit {
                return true;
            }
            i = i + 1;
        }
        false
    }

    /// Whether a device with this id is registered.
    pub fn device_exists(&self, dev: DeviceId) -> (r: bool)
        ensures
            r == self.has_device(dev),
    {
        let i = self.find_device(dev);
        i < self.devices.len()
    }

    /// Whether a conflicting role currently suppresses selection changes
    /// on a seat.
    pub fn seat_suppressed(&self, seat: SeatId) -> (r: bool)
        requires
            self.has_seat(seat),
        ensures
            r == self.seat_state(seat).suppressed,
    {
        let i = self.find_seat(seat);
        self.seats[i].suppressed
    }

    /// The active source of a seat.
    pub fn current_selection(&self, seat: SeatId) -> (r: Option<SourceId>)
        requires
            self.has_seat(seat),
        ensures
            r == self.active_source(seat),
    {
        let i = self.find_seat(seat);
        self.seats[i].active
    }

    /// Whether an offer with this id was handed out.
    pub fn offer_exists(&self, off: OfferId) -> (r: bool)
        ensures
            r == self.has_offer(off),
    {
        let i = self.find_offer(off);
        i < self.offers.len()
    }

    /// Whether an offer is still live: its source has been neither
    /// cancelled nor superseded.
    pub fn offer_is_live(&self, off: OfferId) -> (r: bool)
        requires
            self.wf(),
            self.has_offer(off),
        ensures
            r == self.offer_live(off),
    {
        let i = self.find_offer(off);
        let src = self.offers[i].source;
        proof {
            assert(has_key(source_keys(self.sources@), src.0));
        }
        let sx = self.find_source(src);
        !self.sources[sx].cancelled
    }

    /// Tear down everything a disconnected client left behind: its devices
    /// leave their seats' tables, its sources are cancelled (so offers
    /// derived from them are permanently stale), and any seat whose
    /// selection it owned becomes empty. Disconnection is ordinary cleanup,
    /// not an error; no notification is owed to anyone.
    #[verifier::rlimit(60)]
    #[verifier::loop_isolation(false)]
    pub fn client_disconnect(&mut self, client: ClientId)
        requires
            old(self).wf(),
        ensures
            final(self).wf(),
            final(self).offers_view() == old(self).offers_view(),
            final(self).next_offer_id == old(self).next_offer_id,
            final(self).next_serial == old(self).next_serial,
            final(self).devices_view() =~= devices_without_client(
                old(self).devices_view(),
                client,
            ),
            source_keys(final(self).sources_view()) == source_keys(old(self).sources_view()),
            forall|i: int|
                0 <= i < old(self).sources_view().len() ==> {
                    let o = old(self).sources_view()[i];
                    let f = #[trigger] final(self).sources_view()[i];
                    &&& f.id == o.id
                    &&& f.client == o.client
                    &&& f.mime_types == o.mime_types
                    &&& f.cancelled == (o.cancelled || o.client == client)
                },
            seat_keys(final(self).seats_view()) == seat_keys(old(self).seats_view()),
            forall|i: int|
                0 <= i < old(self).seats_view().len() ==> {
                    let o = old(self).seats_view()[i];
                    let f = #[trigger] final(self).seats_view()[i];
                    &&& f.seat == o.seat
                    &&& f.last_accepted_serial == o.last_accepted_serial
                    &&& f.suppressed == o.suppressed
                    &&& f.issued == o.issued
                    &&& f.active == (match o.active {
                        Some(p) => if old(self).source_state(p).client == client {
                            None
                        } else {
                            Some(p)
                        },
                        None => None,
                    })
                },
    {
        // The client's devices leave the table; everyone else's keep their
        // order.
        let mut kept: Vec<Device> = Vec::new();
        let ghost devs = self.devices@;
        proof {
            assert(devs.skip(0) =~= devs);
        }
        let mut i: usize = 0;
        while i < self.devices.len()
            invariant
                0 <= i <= devs.len(),
                self.devices@ == devs,
                devices_without_client(devs, client) =~= kept@ + devices_without_client(
                    devs.skip(i as int),
                    client,
                ),
            decreases devs.len() - i,
        {
            let dd = self.devices[i];
            proof {
                assert(devs.skip(i as int).skip(1) =~= devs.skip(i as int + 1));
                assert(devs.skip(i as int)[0] == devs[i as int]);
            }
            if dd.client != client {
                kept.push(dd);
            }
            i = i + 1;
        }
        proof {
            assert(devs.skip(devs.len() as int) =~= Seq::<Device>::empty());
            assert(kept@ =~= devices_without_client(devs, client));
        }
        self.devices = kept;
        // The client's sources are cancelled in place.
        let mut j: usize = 0;
        while j < self.sources.len()
            invariant
                0 <= j <= self.sources@.len(),
                self.sources@.len() == old(self).sources@.len(),
                self.devices@ == devices_without_client(old(self).devices@, client),
                self.seats@ == old(self).seats@,
                self.offers@ == old(self).offers@,
                self.next_offer_id == old(self).next_offer_id,
                self.next_serial == old(self).next_serial,
                forall|k: int|
                    j <= k < self.sources@.len() ==> #[trigger] self.sources@[k] == old(
                        self,
                    ).sources@[k],
                forall|k: int|
                    0 <= k < j ==> {
                        let o = old(self).sources@[k];
                        let f = #[trigger] self.sources@[k];
                        &&& f.id == o.id
                        &&& f.client == o.client
                        &&& f.mime_types == o.mime_types
                        &&& f.cancelled == (o.cancelled || o.client == client)
                    },
            decreases self.sources@.len() - j,
        {
            if self.sources[j].client == client {
                self.sources[j].cancelled = true;
            }
            j = j + 1;
        }
        proof {
            assert(source_keys(self.sources@) =~= source_keys(old(self).sources@));
        }
        let ghost sources_mid = self.sources@;
        // Any seat whose selection the client owned becomes empty.
        let mut t: usize = 0;
        while t < self.seats.len()
            invariant
                0 <= t <= self.seats@.len(),
                self.seats@.len() == old(self).seats@.len(),
                self.devices@ == devices_without_client(old(self).devices@, client),
                self.sources@ == sources_mid,
                self.offers@ == old(self).offers@,
                self.next_offer_id == old(self).next_offer_id,
                self.next_serial == old(self).next_serial,
                forall|k: int|
                    t <= k < self.seats@.len() ==> #[trigger] self.seats@[k] == old(
                        self,
                    ).seats@[k],
                forall|k: int|
                    0 <= k < t ==> {
                        let o = old(self).seats@[k];
                        let f = #[trigger] self.seats@[k];
                        &&& f.seat == o.seat
                        &&& f.last_accepted_serial == o.last_accepted_serial
                        &&& f.suppressed == o.suppressed
                        &&& f.issued == o.issued
                        &&& f.active == (match o.active {
                            Some(p) => if old(self).source_state(p).client == client {
                                None
                            } else {
                                Some(p)
                            },
                            None => None,
                        })
                    },
            decreases self.seats@.len() - t,
        {
            let active = self.seats[t].active;
            let clear = match active {
                Some(p) => {
                    proof {
                        assert(old(self).seats@[t as int].active == Some(p));
                        assert(has_key(source_keys(old(self).sources@), p.0));
                        assert(self.has_source(p));
                        lemma_key_index(source_keys(old(self).sources@), p.0);
                    }
                    let px = self.find_source(p);
                    proof {
                        assert(self.sources@[px as int].client == old(self).sources@[px as int].client);
                        assert(old(self).source_state(p).client == old(
                            self,
                        ).sources@[px as int].client);
                    }
                    self.sources[px].client == client
                },
                None => false,
            };
            if clear {
                self.seats[t].active = None;
            }
            t = t + 1;
        }
        proof {
            assert(seat_keys(self.seats@) =~= seat_keys(old(self).seats@));
            lemma_devices_without_client(old(self).devices@, client);
            assert forall|k: int|
                0 <= k < self.devices@.len() implies has_key(
                seat_keys(self.seats@),
                (#[trigger] self.devices@[k]).seat.0,
            ) by {
                let m = choose|m: int|
                    0 <= m < old(self).devices@.len() && old(self).devices@[m] == self.devices@[k];
                assert(has_key(seat_keys(old(self).seats@), old(self).devices@[m].seat.0));
            }
            assert forall|k1: int, k2: int|
                0 <= k1 < k2 < self.sources@.len() implies self.sources@[k1].id
                != self.sources@[k2].id by {
                assert(self.sources@[k1].id == old(self).sources@[k1].id);
                assert(self.sources@[k2].id == old(self).sources@[k2].id);
            }
            assert forall|i2: int|
                0 <= i2 < self.seats@.len() implies match #[trigger] self.seats@[i2].active {
                Some(s) => has_key(source_keys(self.sources@), s.0) && !self.sources@[key_index(
                    source_keys(self.sources@),
                    s.0,
                )].cancelled,
                None => true,
            } by {
                match self.seats@[i2].active {
                    Some(s) => {
                        assert(old(self).seats@[i2].active == Some(s));
                        assert(old(self).source_state(s).client != client);
                        lemma_key_index(source_keys(old(self).sources@), s.0);
                        let idx = key_index(source_keys(old(self).sources@), s.0);
                        assert(self.sources@[idx].cancelled == (old(self).sources@[idx].cancelled
                            || old(self).sources@[idx].client == client));
                    },
                    None => {},
                }
            }
            assert forall|i2: int, j2: int|
                #![trigger self.seats@[i2].active, self.seats@[j2].active]
                0 <= i2 < j2 < self.seats@.len() implies !(self.seats@[i2].active is Some
                && self.seats@[i2].active == self.seats@[j2].active) by {
                assert(self.seats@[i2].active is Some ==> self.seats@[i2].active == old(
                    self,
                ).seats@[i2].active);
                assert(self.seats@[j2].active is Some ==> self.seats@[j2].active == old(
                    self,
                ).seats@[j2].active);
            }
            assert forall|k: int|
                0 <= k < self.offers@.len() implies has_key(
                source_keys(self.sources@),
                (#[trigger] self.offers@[k]).source.0,
            ) by {
                assert(has_key(source_keys(old(self).sources@), self.offers@[k].source.0));
            }
            assert forall|i2: int|
                0 <= i2 < self.sources@.len() implies (!(#[trigger] self.sources@[i2]).cancelled
                ==> !old(self).sources@[i2].cancelled) by {}
            assert forall|j2: int|
                0 <= j2 < self.seats@.len() implies match (#[trigger] old(self).seats@[j2]).active {
                Some(t) => !has_key(source_keys(old(self).sources@), t.0)
                    || self.sources@[key_index(source_keys(old(self).sources@), t.0)].cancelled
                    || self.seats@[j2].active == Some(t),
                None => true,
            } by {
                match old(self).seats@[j2].active {
                    Some(t) => {
                        if has_key(source_keys(old(self).sources@), t.0) {
                            lemma_key_index(source_keys(old(self).sources@), t.0);
                            let idx = key_index(source_keys(old(self).sources@), t.0);
                            assert(self.sources@[idx].cancelled == (
                            old(self).sources@[idx].cancelled || old(self).sources@[idx].client
                                == client));
                            if old(self).sources@[idx].client != client {
                                assert(old(self).source_state(t).client != client);
                                assert(self.seats@[j2].active == Some(t));
                            }
                        }
                    },
                    None => {},
                }
            }
            lemma_offer_backing_carries(*old(self), *self);
            assert(self.wf());
        }
    }

    /// `s` is the active source of some seat.
    pub open spec fn source_in_use(self, s: SourceId) -> bool {
        exists|i: int|
            0 <= i < self.seats@.len() && (#[trigger] self.seats@[i]).active == Some(s)
    }

    /// Change a selection. This is the serial-gated, role-arbitrated core
    /// operation: a stale serial is rejected; a seat held by a conflicting
    /// role suppresses the request silently; otherwise the previous active
    /// source (if any) is cancelled with exactly one notification to its
    /// owner, the new source (if any) becomes active, and the new selection
    /// is fanned out to every device of the seat in table order — a fresh
    /// offer for every device of other clients, "no offer" for the owner's
    /// own devices.
    #[verifier::rlimit(100)]
    #[verifier::loop_isolation(false)]
    pub fn set_selection(
        &mut self,
        device: DeviceId,
        source: Option<SourceId>,
        serial: Option<u64>,
    ) -> (r: Result<SetSelectionOutcome, IpcError>)
        requires
            old(self).wf(),
            old(self).has_device(device),
            match source {
                Some(s) => old(self).has_source(s) && old(self).source_state(s).client == old(
                    self,
                ).device_state(device).client && !old(self).source_state(s).cancelled && !old(
                    self,
                ).source_in_use(s),
                None => true,
            },
            old(self).next_offer_id + old(self).devices_view().len() < u64::MAX,
        ensures
            final(self).wf(),
            final(self).devices_view() == old(self).devices_view(),
            final(self).next_serial == old(self).next_serial,
            ({
                let seat = old(self).device_state(device).seat;
                let cl = old(self).device_state(device).client;
                let stale = match serial {
                    Some(s) => !old(self).spec_serial_valid(seat, cl, s),
                    None => false,
                };
                let suppressed = old(self).seat_state(seat).suppressed;
                &&& (stale ==> r == Err::<SetSelectionOutcome, IpcError>(IpcError::StaleSerial)
                    && *final(self) == *old(self))
                &&& (!stale && suppressed ==> r == Ok::<SetSelectionOutcome, IpcError>(
                    SetSelectionOutcome::Suppressed,
                ) && *final(self) == *old(self))
                &&& (!stale && !suppressed ==> {
                    let prev = old(self).seat_state(seat).active;
                    let cancel = match prev {
                        Some(p) => seq![
                            Notification::Cancelled {
                                client: old(self).source_state(p).client,
                                source: p,
                            },
                        ],
                        None => Seq::<Notification>::empty(),
                    };
                    let bcast = match source {
                        Some(s) => broadcast_notifs(
                            old(self).devices_view(),
                            seat,
                            cl,
                            old(self).next_offer_id,
                        ),
                        None => clear_notifs(old(self).devices_view(), seat),
                    };
                    &&& r matches Ok(SetSelectionOutcome::Applied(ns)) && ns@ =~= cancel + bcast
                    &&& final(self).active_source(seat) == source
                    &&& match prev {
                        Some(p) => final(self).source_state(p).cancelled,
                        None => true,
                    }
                    &&& source_keys(final(self).sources_view()) == source_keys(
                        old(self).sources_view(),
                    )
                    &&& match prev {
                        Some(p) => forall|i: int|
                            0 <= i < old(self).sources_view().len() && i != old(self).source_index(
                                p,
                            ) ==> final(self).sources_view()[i] == old(self).sources_view()[i],
                        None => final(self).sources_view() == old(self).sources_view(),
                    }
                    &&& match source {
                        Some(s) => final(self).offers_view() =~= old(self).offers_view()
                            + broadcast_offers(
                            old(self).devices_view(),
                            seat,
                            cl,
                            s,
                            old(self).next_offer_id,
                        ),
                        None => final(self).offers_view() == old(self).offers_view(),
                    }
                    &&& seat_keys(final(self).seats_view()) == seat_keys(old(self).seats_view())
                    &&& forall|i: int|
                        0 <= i < old(self).seats_view().len() && i != old(self).seat_index(seat)
                            ==> final(self).seats_view()[i] == old(self).seats_view()[i]
                    &&& final(self).seat_state(seat).suppressed == old(self).seat_state(
                        seat,
                    ).suppressed
                    &&& final(self).seat_state(seat).issued == old(self).seat_state(seat).issued
                    &&& final(self).seat_state(seat).last_accepted_serial == (match serial {
                        Some(s) => s,
                        None => old(self).seat_state(seat).last_accepted_serial,
                    })
                })
            }),
    {
        let di = self.find_device(device);
        let d = self.devices[di];
        let seat = d.seat;
        let cl = d.client;
        proof {
            assert(has_key(seat_keys(self.seats@), seat.0));
        }
        if let Some(s) = serial {
            if !self.serial_valid(seat, cl, s) {
                return Err(IpcError::StaleSerial);
            }
        }
        let si = self.find_seat(seat);
        if self.seats[si].suppressed {
            return Ok(SetSelectionOutcome::Suppressed);
        }
        if let Some(s) = serial {
            self.seats[si].last_accepted_serial = s;
        }
        let mut notifs: Vec<Notification> = Vec::new();
        let prev = self.seats[si].active;
        if let Some(p) = prev {
            let pi = self.find_source(p);
            let pclient = self.sources[pi].client;
            self.sources[pi].cancelled = true;
            notifs.push(Notification::Cancelled { client: pclient, source: p });
            proof {
                assert(source_keys(self.sources@) =~= source_keys(old(self).sources@));
                assert(old(self).source_state(p).client == pclient);
                assert(self.sources@[key_index(source_keys(old(self).sources@), p.0)].cancelled);
            }
        }
        proof {
            assert(seat_keys(self.seats@) =~= seat_keys(old(self).seats@));
            assert(self.seat_index(seat) == old(self).seat_index(seat));
            // Any other seat's active source is distinct from `prev`, so its
            // record in the source table is untouched by the cancellation.
            assert forall|i: int|
                0 <= i < self.seats@.len() && i != si as int implies match #[trigger] self.seats@[i].active {
                Some(t) => has_key(source_keys(self.sources@), t.0) && !self.sources@[key_index(
                    source_keys(self.sources@),
                    t.0,
                )].cancelled,
                None => true,
            } by {
                match self.seats@[i].active {
                    Some(t) => {
                        assert(old(self).seats@[i].active == Some(t));
                        match prev {
                            Some(p) => {
                                assert(old(self).seats@[si as int].active == Some(p));
                                assert(!(self.seats@[i].active is Some && self.seats@[i].active
                                    == old(self).seats@[si as int].active) ==> t != p);
                                lemma_key_index(source_keys(old(self).sources@), t.0);
                                lemma_key_index(source_keys(old(self).sources@), p.0);
                            },
                            None => {},
                        }
                    },
                    None => {},
                }
            }
        }
        match source {
            Some(s) => {
                self.seats[si].active = Some(s);
                proof {
                    assert(seat_keys(self.seats@) =~= seat_keys(old(self).seats@));
                    match prev {
                        Some(p) => {
                            assert(p != s);
                            lemma_key_index(source_keys(old(self).sources@), s.0);
                            lemma_key_index(source_keys(old(self).sources@), p.0);
                            assert(self.source_index(s) != old(self).source_index(p));
                        },
                        None => {},
                    }
                    assert(!self.source_state(s).cancelled);
                    assert(source_keys(self.sources@) =~= source_keys(old(self).sources@));
                    assert forall|i2: int|
                        0 <= i2 < self.sources@.len() implies (!(
                    #[trigger] self.sources@[i2]).cancelled ==> !old(
                        self,
                    ).sources@[i2].cancelled) by {}
                    assert forall|j2: int|
                        0 <= j2 < self.seats@.len() implies match (
                    #[trigger] old(self).seats@[j2]).active {
                        Some(t) => !has_key(source_keys(old(self).sources@), t.0)
                            || self.sources@[key_index(
                            source_keys(old(self).sources@),
                            t.0,
                        )].cancelled || self.seats@[j2].active == Some(t),
                        None => true,
                    } by {
                        if j2 != si as int {
                            assert(self.seats@[j2].active == old(self).seats@[j2].active);
                        } else {
                            match prev {
                                Some(p) => {
                                    lemma_key_index(source_keys(old(self).sources@), p.0);
                                },
                                None => {},
                            }
                        }
                    }
                    lemma_offer_backing_carries(*old(self), *self);
                    assert(key_index(seat_keys(self.seats@), seat.0) == si as int);
                }
                let ghost devs = self.devices@;
                let ghost next0 = self.next_offer_id;
                let ghost offers0 = self.offers@;
                let ghost notifs0 = notifs@;
                let ghost sources_mid = self.sources@;
                let ghost seats_mid = self.seats@;
                proof {
                    assert(devs.skip(0) =~= devs);
                }
                let mut i: usize = 0;
                while i < self.devices.len()
                    invariant
                        0 <= i <= devs.len(),
                        self.devices@ == devs,
                        self.sources@ == sources_mid,
                        self.seats@ == seats_mid,
                        self.next_serial == old(self).next_serial,
                        next0 <= self.next_offer_id,
                        self.next_offer_id - next0 <= i,
                        notifs0 + broadcast_notifs(devs, seat, cl, next0) =~= notifs@
                            + broadcast_notifs(devs.skip(i as int), seat, cl, self.next_offer_id),
                        offers0 + broadcast_offers(devs, seat, cl, s, next0) =~= self.offers@
                            + broadcast_offers(
                            devs.skip(i as int),
                            seat,
                            cl,
                            s,
                            self.next_offer_id,
                        ),
                        forall|k: int|
                            0 <= k < self.offers@.len() ==> (#[trigger] self.offers@[k]).id.0
                                < self.next_offer_id,
                        forall|k1: int, k2: int|
                            0 <= k1 < k2 < self.offers@.len() ==> self.offers@[k1].id
                                != self.offers@[k2].id,
                        forall|k: int|
                            0 <= k < self.offers@.len() ==> has_key(
                                source_keys(self.sources@),
                                (#[trigger] self.offers@[k]).source.0,
                            ),
                        forall|k: int|
                            0 <= k < self.offers@.len() ==> self.offer_backed(
                                #[trigger] self.offers@[k],
                            ),
                    decreases devs.len() - i,
                {
                    let ghost notifs_pre = notifs@;
                    let ghost offers_pre = self.offers@;
                    let ghost next_pre = self.next_offer_id;
                    let dd = self.devices[i];
                    proof {
                        assert(devs.skip(i as int).skip(1) =~= devs.skip(i as int + 1));
                        assert(devs.skip(i as int)[0] == devs[i as int]);
                    }
                    if dd.seat == seat {
                        if dd.client == cl {
                            if dd.is_bridge {
                                notifs.push(Notification::BridgeSetSelection { seat, offer: None });
                            } else {
                                notifs.push(
                                    Notification::SelectionIs {
                                        client: dd.client,
                                        device: dd.id,
                                        offer: None,
                                    },
                                );
                            }
                            proof {
                                assert(notifs@ =~= notifs_pre + device_notifs(
                                    dd,
                                    seat,
                                    cl,
                                    next_pre,
                                ));
                            }
                        } else {
                            let oid = OfferId(self.next_offer_id);
                            self.offers.push(
                                Offer {
                                    id: oid,
                                    source: s,
                                    device: dd.id,
                                    client: dd.client,
                                    seat: dd.seat,
                                },
                            );
                            self.next_offer_id = self.next_offer_id + 1;
                            if dd.is_bridge {
                                notifs.push(Notification::BridgeSetOffer { seat, offer: oid });
                                notifs.push(
                                    Notification::BridgeSetSelection { seat, offer: Some(oid) },
                                );
                            } else {
                                notifs.push(
                                    Notification::NewOffer {
                                        client: dd.client,
                                        device: dd.id,
                                        offer: oid,
                                    },
                                );
                                notifs.push(
                                    Notification::SelectionIs {
                                        client: dd.client,
                                        device: dd.id,
                                        offer: Some(oid),
                                    },
                                );
                            }
                            proof {
                                assert(notifs@ =~= notifs_pre + device_notifs(
                                    dd,
                                    seat,
                                    cl,
                                    next_pre,
                                ));
                                assert(self.offers@ =~= offers_pre + seq![
                                    Offer {
                                        id: OfferId(next_pre),
                                        source: s,
                                        device: dd.id,
                                        client: dd.client,
                                        seat: dd.seat,
                                    },
                                ]);
                                assert(self.offer_backed(
                                    self.offers@[self.offers@.len() - 1],
                                ));
                            }
                        }
                    }
                    proof {
                        assert(notifs0 + broadcast_notifs(devs, seat, cl, next0) =~= notifs@
                            + broadcast_notifs(
                            devs.skip(i as int + 1),
                            seat,
                            cl,
                            self.next_offer_id,
                        ));
                        assert(offers0 + broadcast_offers(devs, seat, cl, s, next0) =~= self.offers@
                            + broadcast_offers(
                            devs.skip(i as int + 1),
                            seat,
                            cl,
                            s,
                            self.next_offer_id,
                        ));
                    }
                    i = i + 1;
                }
                proof {
                    assert(devs.skip(devs.len() as int) =~= Seq::<Device>::empty());
                    assert(notifs@ =~= notifs0 + broadcast_notifs(devs, seat, cl, next0));
                    assert(self.offers@ =~= offers0 + broadcast_offers(devs, seat, cl, s, next0));
                    assert(self.wf());
                    assert(self.active_source(seat) == source);
                }
                Ok(SetSelectionOutcome::Applied(notifs))
            },
            None => {
                self.seats[si].active = None;
                proof {
                    assert(seat_keys(self.seats@) =~= seat_keys(old(self).seats@));
                    assert(source_keys(self.sources@) =~= source_keys(old(self).sources@));
                    assert forall|i2: int|
                        0 <= i2 < self.sources@.len() implies (!(
                    #[trigger] self.sources@[i2]).cancelled ==> !old(
                        self,
                    ).sources@[i2].cancelled) by {}
                    assert forall|j2: int|
                        0 <= j2 < self.seats@.len() implies match (
                    #[trigger] old(self).seats@[j2]).active {
                        Some(t) => !has_key(source_keys(old(self).sources@), t.0)
                            || self.sources@[key_index(
                            source_keys(old(self).sources@),
                            t.0,
                        )].cancelled || self.seats@[j2].active == Some(t),
                        None => true,
                    } by {
                        if j2 != si as int {
                            assert(self.seats@[j2].active == old(self).seats@[j2].active);
                        } else {
                            match prev {
                                Some(p) => {
                                    lemma_key_index(source_keys(old(self).sources@), p.0);
                                },
                                None => {},
                            }
                        }
                    }
                    lemma_offer_backing_carries(*old(self), *self);
                    assert(key_index(seat_keys(self.seats@), seat.0) == si as int);
                }
                let ghost devs = self.devices@;
                let ghost notifs0 = notifs@;
                proof {
                    assert(devs.skip(0) =~= devs);
                }
                let mut i: usize = 0;
                while i < self.devices.len()
                    invariant
                        0 <= i <= devs.len(),
                        self.devices@ == devs,
                        notifs0 + clear_notifs(devs, seat) =~= notifs@ + clear_notifs(
                            devs.skip(i as int),
                            seat,
                        ),
                    decreases devs.len() - i,
                {
                    let ghost notifs_pre = notifs@;
                    let dd = self.devices[i];
                    proof {
                        assert(devs.skip(i as int).skip(1) =~= devs.skip(i as int + 1));
                        assert(devs.skip(i as int)[0] == devs[i as int]);
                    }
                    if dd.seat == seat {
                        if dd.is_bridge {
                            notifs.push(Notification::BridgeSetSelection { seat, offer: None });
                        } else {
                            notifs.push(
                                Notification::SelectionIs {
                                    client: dd.client,
                                    device: dd.id,
                                    offer: None,
                                },
                            );
                        }
                    }
                    proof {
                        assert(notifs0 + clear_notifs(devs, seat) =~= notifs@ + clear_notifs(
                            devs.skip(i as int + 1),
                            seat,
                        ));
                    }
                    i = i + 1;
                }
                proof {
                    assert(devs.skip(devs.len() as int) =~= Seq::<Device>::empty());
                    assert(notifs@ =~= notifs0 + clear_notifs(devs, seat));
                    assert(self.wf());
                    assert(self.active_source(seat) == source);
                }
                Ok(SetSelectionOutcome::Applied(notifs))
            },
        }
    }
}

/// Backing of live offers carries across a state change that keeps the
/// offer table, keeps the source and seat key orders, only ever cancels
/// sources, and keeps every seat's selection wherever it pointed at a
/// source that is still live afterwards.
proof fn lemma_offer_backing_carries(pre: SelectionEngine, post: SelectionEngine)
    requires
        forall|k: int|
            0 <= k < pre.offers@.len() ==> pre.offer_backed(#[trigger] pre.offers@[k]),
        forall|k: int|
            0 <= k < pre.offers@.len() ==> has_key(
                source_keys(pre.sources@),
                (#[trigger] pre.offers@[k]).source.0,
            ),
        post.offers@ == pre.offers@,
        source_keys(post.sources@) == source_keys(pre.sources@),
        post.sources@.len() == pre.sources@.len(),
        forall|i: int|
            0 <= i < post.sources@.len() ==> (!(#[trigger] post.sources@[i]).cancelled
                ==> !pre.sources@[i].cancelled),
        seat_keys(post.seats@) == seat_keys(pre.seats@),
        post.seats@.len() == pre.seats@.len(),
        forall|j: int|
            0 <= j < post.seats@.len() ==> match (#[trigger] pre.seats@[j]).active {
                Some(t) => !has_key(source_keys(pre.sources@), t.0) || post.sources@[key_index(
                    source_keys(pre.sources@),
                    t.0,
                )].cancelled || post.seats@[j].active == Some(t),
                None => true,
            },
    ensures
        forall|k: int|
            0 <= k < post.offers@.len() ==> post.offer_backed(#[trigger] post.offers@[k]),
{
    assert forall|k: int|
        0 <= k < post.offers@.len() implies post.offer_backed(#[trigger] post.offers@[k]) by {
        let o = post.offers@[k];
        let skeys = source_keys(pre.sources@);
        lemma_key_index(skeys, o.source.0);
        if !post.sources@[key_index(skeys, o.source.0)].cancelled {
            assert(pre.offer_backed(pre.offers@[k]));
            assert(!pre.sources@[key_index(skeys, o.source.0)].cancelled);
            lemma_key_index(seat_keys(pre.seats@), o.seat.0);
            let j = key_index(seat_keys(pre.seats@), o.seat.0);
            assert(pre.seats@[j].active == Some(o.source));
            assert(post.seats@[j].active == Some(o.source));
        }
    }
}

} // verus!