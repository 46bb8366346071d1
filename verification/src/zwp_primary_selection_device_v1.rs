//! The primary-selection flavor of the transfer engine: the per-client,
//! per-seat device object of the primary-selection protocol, and the thin
//! capability layer that binds it to the shared `SelectionEngine`.
//!
//! A device created for the legacy compatibility layer (`is_xwm`) talks to
//! the asynchronous bridge queue instead of a client connection; everything
//! else about it behaves like an ordinary device.

use vstd::prelude::*;

use crate::ids::{ClientId, DeviceId, OfferId, SeatId, SourceId};
use crate::selection::{has_key, IpcError, Notification, SelectionEngine, SetSelectionOutcome};

verus! {

/// A wire event owed to the device's own client.
#[derive(Clone, Copy, PartialEq, Eq, Structural, Debug)]
pub enum PrimarySelectionEvent {
    /// Introduce a new offer object to the client.
    DataOffer { self_id: DeviceId, offer: OfferId },
    /// Tell the client what the current selection is; `None` stands for the
    /// protocol's null offer id.
    Selection { self_id: DeviceId, offer: Option<OfferId> },
}

/// An entry for the compatibility bridge's cross-subsystem queue.
#[derive(Clone, Copy, PartialEq, Eq, Structural, Debug)]
pub enum XWaylandEvent {
    PrimarySelectionSetOffer { offer: OfferId },
    PrimarySelectionSetSelection { seat: SeatId, offer: Option<OfferId> },
}

/// Where one notification goes: onto the client's wire, or onto the bridge
/// queue (ordering with ordinary notifications is first-in, first-out per
/// seat either way).
#[derive(Clone, Copy, PartialEq, Eq, Structural, Debug)]
pub enum Outgoing {
    Wire(PrimarySelectionEvent),
    Bridge(XWaylandEvent),
}

/// Protocol-level failures of this device.
#[derive(Clone, Copy, PartialEq, Eq, Structural, Debug)]
pub enum ZwpPrimarySelectionDeviceV1Error {
    /// The request named an object the client does not own or that no
    /// longer exists.
    ClientError,
    /// The request could not be parsed.
    MsgParserError,
    /// The seat refused the operation; the engine's rejection is carried
    /// through.
    WlSeatError(IpcError),
}

/// The per-(client, seat) device of the primary-selection protocol.
pub struct ZwpPrimarySelectionDeviceV1 {
    pub id: DeviceId,
    pub client: ClientId,
    pub version: u32,
    pub seat: SeatId,
    pub is_xwm: bool,
}

impl ZwpPrimarySelectionDeviceV1 {
    /// The device, as the engine's table records it.
    pub open spec fn as_device(self) -> crate::selection::Device {
        crate::selection::Device {
            id: self.id,
            client: self.client,
            seat: self.seat,
            is_bridge: self.is_xwm,
        }
    }

    /// This device is registered with the engine under its own identity.
    pub open spec fn registered(self, engine: SelectionEngine) -> bool {
        engine.has_device(self.id) && engine.device_state(self.id) == self.as_device()
    }

    pub fn new(id: DeviceId, client: ClientId, version: u32, seat: SeatId, is_xwm: bool) -> (r:
        ZwpPrimarySelectionDeviceV1)
        ensures
            r.id == id,
            r.client == client,
            r.version == version,
            r.seat == seat,
            r.is_xwm == is_xwm,
    {
        ZwpPrimarySelectionDeviceV1 { id, client, version, seat, is_xwm }
    }

    /// The event that introduces `offer` to this device's client: a wire
    /// event for an ordinary device, a bridge-queue entry for the
    /// compatibility layer.
    pub fn send_data_offer(&self, offer: OfferId) -> (r: Outgoing)
        ensures
            r == if self.is_xwm {
                Outgoing::Bridge(XWaylandEvent::PrimarySelectionSetOffer { offer })
            } else {
                Outgoing::Wire(PrimarySelectionEvent::DataOffer { self_id: self.id, offer })
            },
    {
        if self.is_xwm {
            Outgoing::Bridge(XWaylandEvent::PrimarySelectionSetOffer { offer })
        } else {
            Outgoing::Wire(PrimarySelectionEvent::DataOffer { self_id: self.id, offer })
        }
    }

    /// The event that tells this device's client what the selection now is.
    pub fn send_selection(&self, offer: Option<OfferId>) -> (r: Outgoing)
        ensures
            r == if self.is_xwm {
                Outgoing::Bridge(
                    XWaylandEvent::PrimarySelectionSetSelection { seat: self.seat, offer },
                )
            } else {
                Outgoing::Wire(PrimarySelectionEvent::Selection { self_id: self.id, offer })
            },
    {
        if self.is_xwm {
            Outgoing::Bridge(XWaylandEvent::PrimarySelectionSetSelection { seat: self.seat, offer })
        } else {
            Outgoing::Wire(PrimarySelectionEvent::Selection { self_id: self.id, offer })
        }
    }

    /// The device's `set_selection` request, in the order the protocol
    /// demands: a stale or never-issued serial is rejected first, with the
    /// `StaleSerial` error; then a seat held by a conflicting role drops
    /// the request silently, before the source is even resolved, because a
    /// well-behaved client can race the server's own events; only then is
    /// a source the client does not own (or that is already spent) a
    /// protocol error. On success the engine's notifications come back for
    /// delivery.
    pub fn set_selection(
        &self,
        engine: &mut SelectionEngine,
        source: Option<SourceId>,
        serial: u64,
    ) -> (r: Result<Option<Vec<Notification>>, ZwpPrimarySelectionDeviceV1Error>)
        requires
            old(engine).wf(),
            self.registered(*old(engine)),
            old(engine).next_offer_id + old(engine).devices_view().len() < u64::MAX,
        ensures
            final(engine).wf(),
            final(engine).devices_view() == old(engine).devices_view(),
            final(engine).next_serial == old(engine).next_serial,
            ({
                let usable = match source {
                    Some(s) => old(engine).has_source(s) && old(engine).source_state(s).client
                        == self.client && !old(engine).source_state(s).cancelled && !old(
                        engine,
                    ).source_in_use(s),
                    None => true,
                };
                let stale = !old(engine).spec_serial_valid(self.seat, self.client, serial);
                let suppressed = old(engine).seat_state(self.seat).suppressed;
                let prev = old(engine).seat_state(self.seat).active;
                &&& (stale ==> r == Err::<
                    Option<Vec<Notification>>,
                    ZwpPrimarySelectionDeviceV1Error,
                >(ZwpPrimarySelectionDeviceV1Error::WlSeatError(IpcError::StaleSerial))
                    && *final(engine) == *old(engine))
                &&& (!stale && suppressed ==> r == Ok::<
                    Option<Vec<Notification>>,
                    ZwpPrimarySelectionDeviceV1Error,
                >(None) && *final(engine) == *old(engine))
                &&& (!stale && !suppressed && !usable ==> r == Err::<
                    Option<Vec<Notification>>,
                    ZwpPrimarySelectionDeviceV1Error,
                >(ZwpPrimarySelectionDeviceV1Error::ClientError) && *final(engine) == *old(engine))
                &&& (!stale && !suppressed && usable ==> {
                    &&& r matches Ok(Some(ns))
                    &&& ns@ =~= (match prev {
                        Some(p) => seq![
                            Notification::Cancelled {
                                client: old(engine).source_state(p).client,
                                source: p,
                            },
                        ],
                        None => Seq::<Notification>::empty(),
                    }) + (match source {
                        Some(_) => crate::selection::broadcast_notifs(
                            old(engine).devices_view(),
                            self.seat,
                            self.client,
                            old(engine).next_offer_id,
                        ),
                        None => crate::selection::clear_notifs(
                            old(engine).devices_view(),
                            self.seat,
                        ),
                    })
                    &&& final(engine).active_source(self.seat) == source
                    &&& match prev {
                        Some(p) => final(engine).source_state(p).cancelled,
                        None => true,
                    }
                    &&& crate::selection::source_keys(final(engine).sources_view())
                        == crate::selection::source_keys(old(engine).sources_view())
                    &&& match prev {
                        Some(p) => forall|i: int|
                            0 <= i < old(engine).sources_view().len() && i != old(
                                engine,
                            ).source_index(p) ==> final(engine).sources_view()[i] == old(
                                engine,
                            ).sources_view()[i],
                        None => final(engine).sources_view() == old(engine).sources_view(),
                    }
                    &&& match source {
                        Some(s) => final(engine).offers_view() =~= old(engine).offers_view()
                            + crate::selection::broadcast_offers(
                            old(engine).devices_view(),
                            self.seat,
                            self.client,
                            s,
                            old(engine).next_offer_id,
                        ),
                        None => final(engine).offers_view() == old(engine).offers_view(),
                    }
                    &&& crate::selection::seat_keys(final(engine).seats_view())
                        == crate::selection::seat_keys(old(engine).seats_view())
                    &&& forall|i: int|
                        0 <= i < old(engine).seats_view().len() && i != old(engine).seat_index(
                            self.seat,
                        ) ==> final(engine).seats_view()[i] == old(engine).seats_view()[i]
                    &&& final(engine).seat_state(self.seat).suppressed == old(engine).seat_state(
                        self.seat,
                    ).suppressed
                    &&& final(engine).seat_state(self.seat).issued == old(engine).seat_state(
                        self.seat,
                    ).issued
                    &&& final(engine).seat_state(self.seat).last_accepted_serial == serial
                })
            }),
    {
        proof {
            crate::selection::lemma_key_index(
                crate::selection::device_keys(engine.devices_view()),
                self.id.0,
            );
            assert(engine.devices_view()[engine.device_index(self.id)] == self.as_device());
            assert(has_key(
                crate::selection::seat_keys(engine.seats_view()),
                self.seat.0,
            ));
        }
        if !engine.serial_valid(self.seat, self.client, serial) {
            return Err(ZwpPrimarySelectionDeviceV1Error::WlSeatError(IpcError::StaleSerial));
        }
        if engine.seat_suppressed(self.seat) {
            return Ok(None);
        }
        if let Some(s) = source {
            let usable = engine.source_exists(s) && engine.source_client(s) == self.client
                && !engine.source_cancelled(s) && !engine.source_is_in_use(s);
            if !usable {
                return Err(ZwpPrimarySelectionDeviceV1Error::ClientError);
            }
        }
        match engine.set_selection(self.id, source, Some(serial)) {
            Ok(SetSelectionOutcome::Applied(ns)) => Ok(Some(ns)),
            Ok(SetSelectionOutcome::Suppressed) => Ok(None),
            Err(e) => Err(ZwpPrimarySelectionDeviceV1Error::WlSeatError(e)),
        }
    }

    /// The device's `destroy` request: it leaves its seat's table; devices
    /// of other clients and every source and offer stay untouched.
    pub fn destroy(&self, engine: &mut SelectionEngine)
        requires
            old(engine).wf(),
        ensures
            final(engine).wf(),
            !final(engine).has_device(self.id),
            final(engine).sources_view() == old(engine).sources_view(),
            final(engine).offers_view() == old(engine).offers_view(),
            final(engine).seats_view() == old(engine).seats_view(),
            !old(engine).has_device(self.id) ==> *final(engine) == *old(engine),
            old(engine).has_device(self.id) ==> final(engine).devices_view() =~= old(
                engine,
            ).devices_view().remove(old(engine).device_index(self.id)),
    {
        engine.destroy_device(self.id);
    }

    /// Teardown at client disconnect: unlink the device from its seat.
    /// Safe to call redundantly, before or after `destroy`.
    pub fn break_loops(&self, engine: &mut SelectionEngine)
        requires
            old(engine).wf(),
        ensures
            final(engine).wf(),
            !final(engine).has_device(self.id),
            final(engine).sources_view() == old(engine).sources_view(),
            final(engine).offers_view() == old(engine).offers_view(),
            final(engine).seats_view() == old(engine).seats_view(),
            !old(engine).has_device(self.id) ==> *final(engine) == *old(engine),
    {
        engine.break_device_loops(self.id);
    }
}

/// The primary-selection flavor's capability binding: how this protocol
/// plugs its devices, sources and the compatibility bridge into the one
/// shared engine.
pub struct PrimarySelectionIpc;

impl PrimarySelectionIpc {
    /// Register a device with the engine.
    pub fn add_device(
        engine: &mut SelectionEngine,
        dev: &ZwpPrimarySelectionDeviceV1,
    ) -> (r: Result<(), IpcError>)
        requires
            old(engine).wf(),
            old(engine).has_seat(dev.seat),
            !old(engine).has_device(dev.id),
        ensures
            final(engine).wf(),
            r is Ok <==> !old(engine).client_device_on_seat(dev.client, dev.seat),
            r is Ok ==> dev.registered(*final(engine)),
            r is Ok ==> final(engine).devices_view() =~= old(engine).devices_view().push(
                dev.as_device(),
            ),
            r is Ok ==> forall|d: DeviceId|
                d != dev.id ==> (final(engine).has_device(d) <==> old(engine).has_device(d)),
            final(engine).sources_view() == old(engine).sources_view(),
            final(engine).offers_view() == old(engine).offers_view(),
            final(engine).seats_view() == old(engine).seats_view(),
            final(engine).next_offer_id == old(engine).next_offer_id,
            final(engine).next_serial == old(engine).next_serial,
            r is Err ==> *final(engine) == *old(engine),
    {
        engine.create_device(dev.id, dev.client, dev.seat, dev.is_xwm)
    }

    /// Create the source that stands for the compatibility layer's own
    /// selection, owned by the bridge's client identity.
    pub fn create_xwm_source(engine: &mut SelectionEngine, id: SourceId, client: ClientId)
        requires
            old(engine).wf(),
            !old(engine).has_source(id),
        ensures
            final(engine).wf(),
            final(engine).has_source(id),
            final(engine).source_state(id).client == client,
            final(engine).source_state(id).cancelled == false,
            final(engine).source_state(id).mime_types@ =~= Seq::<String>::empty(),
            final(engine).devices_view() == old(engine).devices_view(),
            final(engine).offers_view() == old(engine).offers_view(),
            final(engine).seats_view() == old(engine).seats_view(),
    {
        engine.create_source(id, client)
    }

    /// Forcibly clear this flavor's selection on a seat: the hook the
    /// seat-wide role authority calls when a conflicting role takes over.
    pub fn unset(engine: &mut SelectionEngine, seat: SeatId) -> (r: Vec<Notification>)
        requires
            old(engine).wf(),
            old(engine).has_seat(seat),
        ensures
            final(engine).wf(),
            final(engine).active_source(seat) is None,
            final(engine).devices_view() == old(engine).devices_view(),
            final(engine).offers_view() == old(engine).offers_view(),
            final(engine).next_offer_id == old(engine).next_offer_id,
            final(engine).next_serial == old(engine).next_serial,
            r@ =~= (match old(engine).seat_state(seat).active {
                Some(p) => seq![
                    Notification::Cancelled {
                        client: old(engine).source_state(p).client,
                        source: p,
                    },
                ],
                None => Seq::<Notification>::empty(),
            }) + crate::selection::clear_notifs(old(engine).devices_view(), seat),
            match old(engine).seat_state(seat).active {
                Some(p) => final(engine).source_state(p).cancelled,
                None => true,
            },
            crate::selection::source_keys(final(engine).sources_view())
                == crate::selection::source_keys(old(engine).sources_view()),
            match old(engine).seat_state(seat).active {
                Some(p) => forall|i: int|
                    0 <= i < old(engine).sources_view().len() && i != old(engine).source_index(p)
                        ==> final(engine).sources_view()[i] == old(engine).sources_view()[i],
                None => final(engine).sources_view() == old(engine).sources_view(),
            },
            crate::selection::seat_keys(final(engine).seats_view()) == crate::selection::seat_keys(
                old(engine).seats_view(),
            ),
            forall|i: int|
                0 <= i < old(engine).seats_view().len() && i != old(engine).seat_index(seat)
                    ==> final(engine).seats_view()[i] == old(engine).seats_view()[i],
    {
        engine.unset(seat)
    }
}

} // verus!
