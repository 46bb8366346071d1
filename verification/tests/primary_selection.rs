//! Tests of the primary-selection device binding and its bridge path.

use jay_core::ids::{ClientId, DeviceId, OfferId, SeatId, SourceId};
use jay_core::selection::{IpcError, Notification, SelectionEngine};
use jay_core::zwp_primary_selection_device_v1::{
    Outgoing, PrimarySelectionEvent, PrimarySelectionIpc, XWaylandEvent,
    ZwpPrimarySelectionDeviceV1, ZwpPrimarySelectionDeviceV1Error,
};

const SEAT: SeatId = SeatId(4);
const CLIENT_A: ClientId = ClientId(1);
const CLIENT_B: ClientId = ClientId(2);

#[test]
fn new_keeps_its_fields() {
    let dev = ZwpPrimarySelectionDeviceV1::new(DeviceId(5), CLIENT_A, 1, SEAT, false);
    assert_eq!(dev.id, DeviceId(5));
    assert_eq!(dev.client, CLIENT_A);
    assert_eq!(dev.version, 1);
    assert_eq!(dev.seat, SEAT);
    assert!(!dev.is_xwm);
}

#[test]
fn send_data_offer_picks_wire_or_bridge() {
    let dev = ZwpPrimarySelectionDeviceV1::new(DeviceId(5), CLIENT_A, 1, SEAT, false);
    assert_eq!(
        dev.send_data_offer(OfferId(9)),
        Outgoing::Wire(PrimarySelectionEvent::DataOffer { self_id: DeviceId(5), offer: OfferId(9) })
    );
    let xwm = ZwpPrimarySelectionDeviceV1::new(DeviceId(6), CLIENT_B, 1, SEAT, true);
    assert_eq!(
        xwm.send_data_offer(OfferId(9)),
        Outgoing::Bridge(XWaylandEvent::PrimarySelectionSetOffer { offer: OfferId(9) })
    );
}

#[test]
fn send_selection_picks_wire_or_bridge() {
    let dev = ZwpPrimarySelectionDeviceV1::new(DeviceId(5), CLIENT_A, 1, SEAT, false);
    assert_eq!(
        dev.send_selection(None),
        Outgoing::Wire(PrimarySelectionEvent::Selection { self_id: DeviceId(5), offer: None })
    );
    let xwm = ZwpPrimarySelectionDeviceV1::new(DeviceId(6), CLIENT_B, 1, SEAT, true);
    assert_eq!(
        xwm.send_selection(Some(OfferId(3))),
        Outgoing::Bridge(XWaylandEvent::PrimarySelectionSetSelection {
            seat: SEAT,
            offer: Some(OfferId(3)),
        })
    );
}

#[test]
fn set_selection_through_the_device() {
    let mut e = SelectionEngine::new();
    e.add_seat(SEAT);
    let dev_a = ZwpPrimarySelectionDeviceV1::new(DeviceId(11), CLIENT_A, 1, SEAT, false);
    let dev_b = ZwpPrimarySelectionDeviceV1::new(DeviceId(12), CLIENT_B, 1, SEAT, false);
    PrimarySelectionIpc::add_device(&mut e, &dev_a).unwrap();
    PrimarySelectionIpc::add_device(&mut e, &dev_b).unwrap();
    e.create_source(SourceId(77), CLIENT_A);
    let serial = e.issue_serial(SEAT, CLIENT_A);
    let notifs = dev_a.set_selection(&mut e, Some(SourceId(77)), serial).unwrap().unwrap();
    assert_eq!(notifs.len(), 3);
    assert_eq!(e.current_selection(SEAT), Some(SourceId(77)));
}

#[test]
fn foreign_source_is_a_protocol_error() {
    let mut e = SelectionEngine::new();
    e.add_seat(SEAT);
    let dev_a = ZwpPrimarySelectionDeviceV1::new(DeviceId(11), CLIENT_A, 1, SEAT, false);
    PrimarySelectionIpc::add_device(&mut e, &dev_a).unwrap();
    // The source belongs to another client.
    e.create_source(SourceId(77), CLIENT_B);
    let serial = e.issue_serial(SEAT, CLIENT_A);
    let err = dev_a.set_selection(&mut e, Some(SourceId(77)), serial).unwrap_err();
    assert_eq!(err, ZwpPrimarySelectionDeviceV1Error::ClientError);
    assert_eq!(e.current_selection(SEAT), None);
}

#[test]
fn stale_serial_is_a_protocol_error() {
    let mut e = SelectionEngine::new();
    e.add_seat(SEAT);
    let dev_a = ZwpPrimarySelectionDeviceV1::new(DeviceId(11), CLIENT_A, 1, SEAT, false);
    PrimarySelectionIpc::add_device(&mut e, &dev_a).unwrap();
    e.create_source(SourceId(77), CLIENT_A);
    // A never-issued serial is rejected with the stale-serial error and
    // changes nothing.
    let err = dev_a.set_selection(&mut e, Some(SourceId(77)), 41).unwrap_err();
    assert_eq!(err, ZwpPrimarySelectionDeviceV1Error::WlSeatError(IpcError::StaleSerial));
    assert_eq!(e.current_selection(SEAT), None);
    // A serial older than the seat's last accepted one is rejected the
    // same way.
    let s_old = e.issue_serial(SEAT, CLIENT_A);
    let s_new = e.issue_serial(SEAT, CLIENT_A);
    dev_a.set_selection(&mut e, Some(SourceId(77)), s_new).unwrap();
    e.create_source(SourceId(78), CLIENT_A);
    let err = dev_a.set_selection(&mut e, Some(SourceId(78)), s_old).unwrap_err();
    assert_eq!(err, ZwpPrimarySelectionDeviceV1Error::WlSeatError(IpcError::StaleSerial));
    assert_eq!(e.current_selection(SEAT), Some(SourceId(77)));
    // The serial is checked first: with a stale serial even a foreign
    // source is answered with the stale-serial error.
    e.create_source(SourceId(79), CLIENT_B);
    let err = dev_a.set_selection(&mut e, Some(SourceId(79)), s_old).unwrap_err();
    assert_eq!(err, ZwpPrimarySelectionDeviceV1Error::WlSeatError(IpcError::StaleSerial));
}

#[test]
fn suppressed_seat_still_ignores_silently() {
    // Only the role-conflict case is a silent drop; the client gets no
    // error because it may be racing the server's own role change.
    let mut e = SelectionEngine::new();
    e.add_seat(SEAT);
    let dev_a = ZwpPrimarySelectionDeviceV1::new(DeviceId(11), CLIENT_A, 1, SEAT, false);
    PrimarySelectionIpc::add_device(&mut e, &dev_a).unwrap();
    e.create_source(SourceId(77), CLIENT_A);
    let serial = e.issue_serial(SEAT, CLIENT_A);
    e.set_suppressed(SEAT, true);
    let out = dev_a.set_selection(&mut e, Some(SourceId(77)), serial).unwrap();
    assert!(out.is_none());
    assert_eq!(e.current_selection(SEAT), None);
    // The suppression gate comes before the source is resolved: even a
    // request naming an unknown source is dropped silently, not answered
    // with a protocol error.
    let out = dev_a.set_selection(&mut e, Some(SourceId(9999)), serial).unwrap();
    assert!(out.is_none());
    assert_eq!(e.current_selection(SEAT), None);
}

#[test]
fn destroy_unlinks_only_this_device() {
    let mut e = SelectionEngine::new();
    e.add_seat(SEAT);
    let dev_a = ZwpPrimarySelectionDeviceV1::new(DeviceId(11), CLIENT_A, 1, SEAT, false);
    let dev_b = ZwpPrimarySelectionDeviceV1::new(DeviceId(12), CLIENT_B, 1, SEAT, false);
    PrimarySelectionIpc::add_device(&mut e, &dev_a).unwrap();
    PrimarySelectionIpc::add_device(&mut e, &dev_b).unwrap();
    dev_a.destroy(&mut e);
    assert!(!e.device_exists(DeviceId(11)));
    assert!(e.device_exists(DeviceId(12)));
    // The teardown hook is safe to run after the destroy.
    dev_a.break_loops(&mut e);
    assert!(e.device_exists(DeviceId(12)));
}

#[test]
fn unset_hook_clears_the_flavor() {
    let mut e = SelectionEngine::new();
    e.add_seat(SEAT);
    let dev_a = ZwpPrimarySelectionDeviceV1::new(DeviceId(11), CLIENT_A, 1, SEAT, false);
    PrimarySelectionIpc::add_device(&mut e, &dev_a).unwrap();
    e.create_source(SourceId(77), CLIENT_A);
    let serial = e.issue_serial(SEAT, CLIENT_A);
    dev_a.set_selection(&mut e, Some(SourceId(77)), serial).unwrap();
    let notifs = PrimarySelectionIpc::unset(&mut e, SEAT);
    assert_eq!(notifs[0], Notification::Cancelled { client: CLIENT_A, source: SourceId(77) });
    assert_eq!(e.current_selection(SEAT), None);
}

#[test]
fn xwm_source_is_registered_for_the_bridge() {
    let mut e = SelectionEngine::new();
    e.add_seat(SEAT);
    let bridge = ClientId(1000);
    PrimarySelectionIpc::create_xwm_source(&mut e, SourceId(500), bridge);
    assert!(e.source_exists(SourceId(500)));
    assert_eq!(e.source_client(SourceId(500)), bridge);
    assert!(!e.source_cancelled(SourceId(500)));
}
