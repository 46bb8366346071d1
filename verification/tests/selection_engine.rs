//! Tests of the selection engine: serial gating, fan-out, staleness and
//! teardown.

use jay_core::ids::{ClientId, DeviceId, OfferId, SeatId, SourceId};
use jay_core::selection::{IpcError, Notification, SelectionEngine, SetSelectionOutcome};

const SEAT: SeatId = SeatId(1);
const CLIENT_A: ClientId = ClientId(10);
const CLIENT_B: ClientId = ClientId(20);
const DEV_A: DeviceId = DeviceId(100);
const DEV_B: DeviceId = DeviceId(200);
const SRC_1: SourceId = SourceId(1000);
const SRC_2: SourceId = SourceId(2000);

fn engine_with_two_devices() -> SelectionEngine {
    let mut e = SelectionEngine::new();
    e.add_seat(SEAT);
    e.create_device(DEV_A, CLIENT_A, SEAT, false).unwrap();
    e.create_device(DEV_B, CLIENT_B, SEAT, false).unwrap();
    e
}

#[test]
fn selection_fan_out_order() {
    // Client A sets a selection; B must see NewOffer then SelectionIs with
    // the same offer, A itself sees "no offer".
    let mut e = engine_with_two_devices();
    e.create_source(SRC_1, CLIENT_A);
    e.source_add_mime(SRC_1, "text/plain".to_string());
    let serial = e.issue_serial(SEAT, CLIENT_A);
    let out = e.set_selection(DEV_A, Some(SRC_1), Some(serial)).unwrap();
    let notifs = match out {
        SetSelectionOutcome::Applied(ns) => ns,
        SetSelectionOutcome::Suppressed => panic!("must not be suppressed"),
    };
    assert_eq!(notifs.len(), 3);
    assert_eq!(
        notifs[0],
        Notification::SelectionIs { client: CLIENT_A, device: DEV_A, offer: None }
    );
    let offer = match notifs[1] {
        Notification::NewOffer { client, device, offer } => {
            assert_eq!(client, CLIENT_B);
            assert_eq!(device, DEV_B);
            offer
        }
        ref n => panic!("expected a new offer, got {:?}", n),
    };
    assert_eq!(
        notifs[2],
        Notification::SelectionIs { client: CLIENT_B, device: DEV_B, offer: Some(offer) }
    );
    assert_eq!(e.current_selection(SEAT), Some(SRC_1));
}

#[test]
fn offer_request_data_matches_mime() {
    // The concrete two-client scenario: B may pull the advertised type and
    // only that type.
    let mut e = engine_with_two_devices();
    e.create_source(SRC_1, CLIENT_A);
    e.source_add_mime(SRC_1, "text/plain".to_string());
    let serial = e.issue_serial(SEAT, CLIENT_A);
    let out = e.set_selection(DEV_A, Some(SRC_1), Some(serial)).unwrap();
    let notifs = match out {
        SetSelectionOutcome::Applied(ns) => ns,
        SetSelectionOutcome::Suppressed => panic!("must not be suppressed"),
    };
    let offer = match notifs[1] {
        Notification::NewOffer { offer, .. } => offer,
        ref n => panic!("expected a new offer, got {:?}", n),
    };
    let ok = e.offer_request_data(offer, "text/plain".to_string(), 7).unwrap();
    assert_eq!(
        ok,
        Notification::TransferRequest {
            client: CLIENT_A,
            source: SRC_1,
            mime_type: "text/plain".to_string(),
            sink_fd: 7,
        }
    );
    let err = e.offer_request_data(offer, "image/png".to_string(), 7).unwrap_err();
    assert_eq!(err, IpcError::MimeTypeNotOffered);
    // The failed request did not hurt the offer.
    assert!(e.offer_is_live(offer));
    let again = e.offer_request_data(offer, "text/plain".to_string(), 8);
    assert!(again.is_ok());
}

#[test]
fn stale_serial_rejected_without_state_change() {
    let mut e = engine_with_two_devices();
    e.create_source(SRC_1, CLIENT_A);
    let s_old = e.issue_serial(SEAT, CLIENT_A);
    let s_new = e.issue_serial(SEAT, CLIENT_A);
    // Accept the newer serial first.
    e.set_selection(DEV_A, Some(SRC_1), Some(s_new)).unwrap();
    // The older serial is now stale: rejected, and the selection stays.
    e.create_source(SRC_2, CLIENT_A);
    let err = e.set_selection(DEV_A, Some(SRC_2), Some(s_old)).unwrap_err();
    assert_eq!(err, IpcError::StaleSerial);
    assert_eq!(e.current_selection(SEAT), Some(SRC_1));
    assert!(!e.source_cancelled(SRC_1));
}

#[test]
fn unissued_serial_rejected() {
    let mut e = engine_with_two_devices();
    e.create_source(SRC_1, CLIENT_A);
    // Serial 5 was never issued to client A on this seat.
    let err = e.set_selection(DEV_A, Some(SRC_1), Some(5)).unwrap_err();
    assert_eq!(err, IpcError::StaleSerial);
    assert_eq!(e.current_selection(SEAT), None);
}

#[test]
fn supersede_cancels_exactly_once() {
    let mut e = engine_with_two_devices();
    e.create_source(SRC_1, CLIENT_A);
    let s1 = e.issue_serial(SEAT, CLIENT_A);
    e.set_selection(DEV_A, Some(SRC_1), Some(s1)).unwrap();
    e.create_source(SRC_2, CLIENT_B);
    let s2 = e.issue_serial(SEAT, CLIENT_B);
    let out = e.set_selection(DEV_B, Some(SRC_2), Some(s2)).unwrap();
    let notifs = match out {
        SetSelectionOutcome::Applied(ns) => ns,
        SetSelectionOutcome::Suppressed => panic!("must not be suppressed"),
    };
    // Exactly one cancellation, first, to the superseded source's owner.
    assert_eq!(notifs[0], Notification::Cancelled { client: CLIENT_A, source: SRC_1 });
    let cancels = notifs
        .iter()
        .filter(|n| matches!(n, Notification::Cancelled { .. }))
        .count();
    assert_eq!(cancels, 1);
    assert!(e.source_cancelled(SRC_1));
    assert_eq!(e.current_selection(SEAT), Some(SRC_2));
}

#[test]
fn clearing_the_selection_notifies_every_device() {
    let mut e = engine_with_two_devices();
    e.create_source(SRC_1, CLIENT_A);
    let s1 = e.issue_serial(SEAT, CLIENT_A);
    e.set_selection(DEV_A, Some(SRC_1), Some(s1)).unwrap();
    let s2 = e.issue_serial(SEAT, CLIENT_A);
    let out = e.set_selection(DEV_A, None, Some(s2)).unwrap();
    let notifs = match out {
        SetSelectionOutcome::Applied(ns) => ns,
        SetSelectionOutcome::Suppressed => panic!("must not be suppressed"),
    };
    assert_eq!(
        notifs,
        vec![
            Notification::Cancelled { client: CLIENT_A, source: SRC_1 },
            Notification::SelectionIs { client: CLIENT_A, device: DEV_A, offer: None },
            Notification::SelectionIs { client: CLIENT_B, device: DEV_B, offer: None },
        ]
    );
    assert_eq!(e.current_selection(SEAT), None);
}

#[test]
fn suppressed_seat_ignores_the_request() {
    let mut e = engine_with_two_devices();
    e.create_source(SRC_1, CLIENT_A);
    let s = e.issue_serial(SEAT, CLIENT_A);
    e.set_suppressed(SEAT, true);
    let out = e.set_selection(DEV_A, Some(SRC_1), Some(s)).unwrap();
    assert_eq!(out, SetSelectionOutcome::Suppressed);
    assert_eq!(e.current_selection(SEAT), None);
    // Once the conflicting role ends, the same serial still works.
    e.set_suppressed(SEAT, false);
    let out = e.set_selection(DEV_A, Some(SRC_1), Some(s)).unwrap();
    assert!(matches!(out, SetSelectionOutcome::Applied(_)));
    assert_eq!(e.current_selection(SEAT), Some(SRC_1));
}

#[test]
fn duplicate_device_refused() {
    let mut e = SelectionEngine::new();
    e.add_seat(SEAT);
    e.create_device(DEV_A, CLIENT_A, SEAT, false).unwrap();
    let err = e.create_device(DeviceId(101), CLIENT_A, SEAT, false).unwrap_err();
    assert_eq!(err, IpcError::DeviceAlreadyExists);
}

#[test]
fn destroying_a_device_spares_other_clients() {
    let mut e = engine_with_two_devices();
    e.destroy_device(DEV_B);
    assert!(!e.device_exists(DEV_B));
    assert!(e.device_exists(DEV_A));
    // Idempotent.
    e.destroy_device(DEV_B);
    assert!(e.device_exists(DEV_A));
}

#[test]
fn destroying_a_source_stales_its_offers_for_good() {
    let mut e = engine_with_two_devices();
    e.create_source(SRC_1, CLIENT_A);
    e.source_add_mime(SRC_1, "text/plain".to_string());
    let s = e.issue_serial(SEAT, CLIENT_A);
    let out = e.set_selection(DEV_A, Some(SRC_1), Some(s)).unwrap();
    let notifs = match out {
        SetSelectionOutcome::Applied(ns) => ns,
        SetSelectionOutcome::Suppressed => panic!("must not be suppressed"),
    };
    let offer = match notifs[1] {
        Notification::NewOffer { offer, .. } => offer,
        ref n => panic!("expected a new offer, got {:?}", n),
    };
    assert!(e.offer_is_live(offer));
    e.destroy_source(SRC_1);
    assert!(!e.offer_is_live(offer));
    let err = e.offer_request_data(offer, "text/plain".to_string(), 3).unwrap_err();
    assert_eq!(err, IpcError::OfferStale);
    assert_eq!(e.current_selection(SEAT), None);
}

#[test]
fn unset_clears_and_cancels() {
    let mut e = engine_with_two_devices();
    e.create_source(SRC_1, CLIENT_A);
    let s = e.issue_serial(SEAT, CLIENT_A);
    e.set_selection(DEV_A, Some(SRC_1), Some(s)).unwrap();
    let notifs = e.unset(SEAT);
    assert_eq!(notifs[0], Notification::Cancelled { client: CLIENT_A, source: SRC_1 });
    assert_eq!(e.current_selection(SEAT), None);
    assert!(e.source_cancelled(SRC_1));
}

#[test]
fn disconnect_cancels_and_stales_later_serials() {
    // Client A holds the active source, B holds an old serial. A
    // disconnects: the source is cancelled, and B's stale serial no longer
    // authorizes a change.
    let mut e = engine_with_two_devices();
    let b_serial = e.issue_serial(SEAT, CLIENT_B);
    e.create_source(SRC_1, CLIENT_A);
    let a_serial = e.issue_serial(SEAT, CLIENT_A);
    e.set_selection(DEV_A, Some(SRC_1), Some(a_serial)).unwrap();
    e.client_disconnect(CLIENT_A);
    assert!(e.source_cancelled(SRC_1));
    assert!(!e.device_exists(DEV_A));
    assert!(e.device_exists(DEV_B));
    assert_eq!(e.current_selection(SEAT), None);
    e.create_source(SRC_2, CLIENT_B);
    let err = e.set_selection(DEV_B, Some(SRC_2), Some(b_serial)).unwrap_err();
    assert_eq!(err, IpcError::StaleSerial);
    assert_eq!(e.current_selection(SEAT), None);
}

#[test]
fn bridge_device_routes_through_the_queue() {
    let mut e = SelectionEngine::new();
    e.add_seat(SEAT);
    e.create_device(DEV_A, CLIENT_A, SEAT, false).unwrap();
    // The compatibility layer holds a bridge device under its own client id.
    let bridge_client = ClientId(999);
    let bridge_dev = DeviceId(900);
    e.create_device(bridge_dev, bridge_client, SEAT, true).unwrap();
    e.create_source(SRC_1, CLIENT_A);
    let s = e.issue_serial(SEAT, CLIENT_A);
    let out = e.set_selection(DEV_A, Some(SRC_1), Some(s)).unwrap();
    let notifs = match out {
        SetSelectionOutcome::Applied(ns) => ns,
        SetSelectionOutcome::Suppressed => panic!("must not be suppressed"),
    };
    let offer = match notifs[1] {
        Notification::BridgeSetOffer { offer, .. } => offer,
        ref n => panic!("expected a bridge offer, got {:?}", n),
    };
    assert_eq!(
        notifs,
        vec![
            Notification::SelectionIs { client: CLIENT_A, device: DEV_A, offer: None },
            Notification::BridgeSetOffer { seat: SEAT, offer },
            Notification::BridgeSetSelection { seat: SEAT, offer: Some(offer) },
        ]
    );
}

#[test]
fn offer_ids_are_fresh_across_broadcasts() {
    let mut e = engine_with_two_devices();
    e.create_source(SRC_1, CLIENT_A);
    let s1 = e.issue_serial(SEAT, CLIENT_A);
    let o1 = match e.set_selection(DEV_A, Some(SRC_1), Some(s1)).unwrap() {
        SetSelectionOutcome::Applied(ns) => match ns[1] {
            Notification::NewOffer { offer, .. } => offer,
            ref n => panic!("expected a new offer, got {:?}", n),
        },
        SetSelectionOutcome::Suppressed => panic!("must not be suppressed"),
    };
    e.create_source(SRC_2, CLIENT_B);
    let s2 = e.issue_serial(SEAT, CLIENT_B);
    let o2 = match e.set_selection(DEV_B, Some(SRC_2), Some(s2)).unwrap() {
        SetSelectionOutcome::Applied(ns) => match ns[1] {
            Notification::NewOffer { offer, .. } => offer,
            ref n => panic!("expected a new offer, got {:?}", n),
        },
        SetSelectionOutcome::Suppressed => panic!("must not be suppressed"),
    };
    assert_ne!(o1, o2);
    let _ = OfferId(0);
}
