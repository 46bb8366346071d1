//! Tests of the popup position bookkeeping, the input-management
//! interface, the input-library slot model and the configuration proxy.

use jay_core::config_handler::{
    Axis, CfgDevice, CfgSeat, ClientMessage, ConfigProxyHandler, CphError, Direction, InputDevice,
    Keymap, Response, Seat,
};
use jay_core::ids::ClientId;
use jay_core::jay_input::{
    DeviceInfo, InputState, JayInput, JayInputError, JayInputEvent, SeatInfo,
    ACCEL_PROFILE_ADAPTIVE, ACCEL_PROFILE_FLAT,
};
use jay_core::libinput_device::{LibInputDevice, RegisteredDevice};
use jay_core::rect::Rect;
use jay_core::xdg_popup::{
    Anchor, Gravity, XdgPopup, XdgPopupError, XdgPopupEvent, XdgPositioned, CA_FLIP_X,
    CA_RESIZE_X, CA_SLIDE_X,
};

fn positioner(w: i32, h: i32) -> XdgPositioned {
    XdgPositioned {
        size_width: w,
        size_height: h,
        ar: Rect { x1: 0, y1: 0, x2: 10, y2: 10 },
        anchor: Anchor::BottomLeft,
        gravity: Gravity::BottomRight,
        off_x: 0,
        off_y: 0,
        ca: 0,
    }
}

#[test]
fn incomplete_positioner_is_refused() {
    match XdgPopup::new(1, 3, None, &positioner(0, 10)) {
        Err(e) => assert_eq!(e, XdgPopupError::Incomplete),
        Ok(_) => panic!("an incomplete positioner must be refused"),
    }
    assert!(XdgPopup::new(1, 3, None, &positioner(10, 10)).is_ok());
}

#[test]
fn absolute_position_follows_the_parent() {
    let parent = Rect { x1: 100, y1: 200, x2: 400, y2: 500 };
    let mut popup = XdgPopup::new(1, 3, Some(parent), &positioner(10, 10)).unwrap();
    popup.relative_position = Rect { x1: 5, y1: 6, x2: 25, y2: 26 };
    popup.update_absolute_position();
    assert_eq!(popup.absolute_position, Rect { x1: 105, y1: 206, x2: 125, y2: 226 });
    // Without a parent the position stays.
    popup.parent_extents = None;
    popup.relative_position = Rect { x1: 0, y1: 0, x2: 1, y2: 1 };
    popup.update_absolute_position();
    assert_eq!(popup.absolute_position, Rect { x1: 105, y1: 206, x2: 125, y2: 226 });
}

#[test]
fn popup_events_and_versioning() {
    let mut popup = XdgPopup::new(1, 2, None, &positioner(10, 10)).unwrap();
    popup.relative_position = Rect { x1: 3, y1: 4, x2: 13, y2: 24 };
    assert_eq!(
        popup.configure(),
        XdgPopupEvent::Configure { x: 3, y: 4, width: 10, height: 20 }
    );
    assert_eq!(popup.repositioned(9), XdgPopupEvent::Repositioned { token: 9 });
    assert_eq!(popup.popup_done(), XdgPopupEvent::PopupDone);
    // Versions up to two lack the reposition request.
    assert_eq!(popup.num_requests(), 2);
    let newer = XdgPopup::new(1, 3, None, &positioner(10, 10)).unwrap();
    assert_eq!(newer.num_requests(), 3);
}

#[test]
fn popup_destroy_detaches() {
    let parent = Rect { x1: 0, y1: 0, x2: 10, y2: 10 };
    let mut popup = XdgPopup::new(1, 3, Some(parent), &positioner(10, 10)).unwrap();
    popup.destroy();
    assert!(popup.parent_extents.is_none());
    assert!(!popup.mapped);
    popup.break_loops();
    assert!(popup.parent_extents.is_none());
}

#[test]
fn commits_map_and_unmap() {
    let parent = Rect { x1: 0, y1: 0, x2: 50, y2: 50 };
    let mut popup = XdgPopup::new(1, 3, Some(parent), &positioner(10, 10)).unwrap();
    assert!(popup.initial_configure().is_some());
    // No workspace yet: nothing happens.
    assert_eq!(popup.post_commit(false, true), None);
    assert!(!popup.mapped);
    // A buffer maps the popup.
    assert_eq!(popup.post_commit(true, true), None);
    assert!(popup.mapped);
    // Losing the buffer unmaps it and dismisses it.
    assert_eq!(popup.post_commit(true, false), Some(XdgPopupEvent::PopupDone));
    assert!(!popup.mapped);
    // A further bufferless commit is a no-op.
    assert_eq!(popup.post_commit(true, false), None);
}

#[test]
fn unconstrained_position_follows_anchor_and_gravity() {
    // Anchored at the anchor rectangle's bottom-left, extending to the
    // bottom-right: the popup's top-left corner sits on that anchor point.
    let parent = Rect { x1: 100, y1: 100, x2: 200, y2: 200 };
    let mut popup = XdgPopup::new(1, 3, Some(parent), &positioner(20, 30)).unwrap();
    popup.update_position(None);
    assert_eq!(popup.relative_position, Rect { x1: 0, y1: 10, x2: 20, y2: 40 });
    assert_eq!(popup.absolute_position, Rect { x1: 100, y1: 110, x2: 120, y2: 140 });
}

#[test]
fn contained_positions_stay_unadjusted() {
    let parent = Rect { x1: 100, y1: 100, x2: 200, y2: 200 };
    let output = Rect { x1: 0, y1: 0, x2: 1000, y2: 1000 };
    let mut popup = XdgPopup::new(1, 3, Some(parent), &positioner(20, 30)).unwrap();
    popup.pos.ca = CA_FLIP_X | CA_SLIDE_X | CA_RESIZE_X;
    popup.update_position(Some(output));
    assert_eq!(popup.relative_position, Rect { x1: 0, y1: 10, x2: 20, y2: 40 });
}

#[test]
fn overflow_flips_across_the_anchor() {
    // The anchor rectangle hugs the output's right edge; a right-extending
    // popup overflows and flips to extend leftwards from the anchor's
    // mirrored corner.
    let parent = Rect { x1: 900, y1: 0, x2: 1000, y2: 100 };
    let output = Rect { x1: 0, y1: 0, x2: 1000, y2: 1000 };
    let mut pos = positioner(50, 10);
    pos.ar = Rect { x1: 80, y1: 0, x2: 100, y2: 10 };
    pos.ca = CA_FLIP_X;
    let mut popup = XdgPopup::new(1, 3, Some(parent), &pos).unwrap();
    popup.update_position(Some(output));
    // Unflipped the popup would start at the anchor rect's left edge
    // (x 980 absolute) and overflow; flipped it ends at its right edge.
    assert_eq!(popup.absolute_position.x2, 1000);
    assert_eq!(popup.absolute_position.x1, 950);
    // Size is untouched by a flip.
    assert_eq!(popup.relative_position.x2 - popup.relative_position.x1, 50);
}

#[test]
fn overflow_slides_to_the_parent_edge() {
    // No flip allowed; sliding pulls the overflowing popup back to the
    // parent's far edge.
    let parent = Rect { x1: 900, y1: 0, x2: 1000, y2: 100 };
    let output = Rect { x1: 0, y1: 0, x2: 1000, y2: 1000 };
    let mut pos = positioner(50, 10);
    pos.ar = Rect { x1: 80, y1: 0, x2: 100, y2: 10 };
    pos.ca = CA_SLIDE_X;
    let mut popup = XdgPopup::new(1, 3, Some(parent), &pos).unwrap();
    popup.update_position(Some(output));
    assert_eq!(popup.absolute_position.x2, 1000);
    assert_eq!(popup.relative_position.x2 - popup.relative_position.x1, 50);
}

#[test]
fn overflow_resizes_to_the_output() {
    // Only a resize is allowed: the popup is clamped to the output edge
    // and loses width.
    let parent = Rect { x1: 900, y1: 0, x2: 1000, y2: 100 };
    let output = Rect { x1: 0, y1: 0, x2: 1000, y2: 1000 };
    let mut pos = positioner(50, 10);
    pos.ar = Rect { x1: 80, y1: 0, x2: 100, y2: 10 };
    pos.ca = CA_RESIZE_X;
    let mut popup = XdgPopup::new(1, 3, Some(parent), &pos).unwrap();
    popup.update_position(Some(output));
    assert_eq!(popup.absolute_position.x1, 980);
    assert_eq!(popup.absolute_position.x2, 1000);
    assert_eq!(popup.relative_position.x2 - popup.relative_position.x1, 20);
}

#[test]
fn reposition_acknowledges_and_reconfigures() {
    let parent = Rect { x1: 100, y1: 100, x2: 200, y2: 200 };
    let mut popup = XdgPopup::new(1, 3, Some(parent), &positioner(20, 30)).unwrap();
    let (ack, conf) = popup.reposition(positioner(40, 10), None, 77);
    assert_eq!(ack, XdgPopupEvent::Repositioned { token: 77 });
    assert_eq!(conf, XdgPopupEvent::Configure { x: 0, y: 10, width: 40, height: 10 });
    assert_eq!(popup.pos.size_width, 40);
}

#[test]
fn rect_arithmetic() {
    assert!(Rect::new(5, 5, 4, 9).is_none());
    let r = Rect::new_sized(2, 3, 10, 20).unwrap();
    assert_eq!(r, Rect { x1: 2, y1: 3, x2: 12, y2: 23 });
    let moved = r.move_(-2, -3);
    assert_eq!(moved, Rect { x1: 0, y1: 0, x2: 10, y2: 20 });
    assert_eq!(moved.width(), 10);
    assert_eq!(moved.height(), 20);
}

#[test]
fn slots_are_stored_shifted() {
    let mut dev = LibInputDevice { user_data: 0 };
    dev.set_slot(3);
    assert_eq!(dev.user_data, 4);
    dev.unset_slot();
    assert_eq!(dev.user_data, 0);
    let reg = RegisteredDevice { dev: LibInputDevice { user_data: 7 } };
    assert_eq!(reg.device().user_data, 7);
}

fn input_state() -> InputState {
    InputState {
        seats: vec![SeatInfo {
            id: 1,
            name: "default".to_string(),
            repeat_rate: 25,
            repeat_delay: 250,
            hardware_cursor: false,
            cursor_size: 16,
            keymap: vec![1, 2, 3],
        }],
        devices: vec![DeviceInfo {
            id: 9,
            seat: None,
            capabilities: vec![1, 3],
            accel_profile: None,
            accel_speed_bits: 0,
            left_handed: false,
            natural_scrolling: false,
            tap_enabled: false,
            tap_drag_enabled: false,
            tap_drag_lock_enabled: false,
            px_per_wheel_scroll_bits: 0,
            transform_matrix_bits: [0; 4],
        }],
    }
}

#[test]
fn seat_and_device_lookups() {
    let state = input_state();
    let ji = JayInput::new(5, ClientId(1));
    assert_eq!(ji.seat(&state, "default"), Ok(0));
    match ji.seat(&state, "missing") {
        Err(JayInputError::SeatDoesNotExist(n)) => assert_eq!(n, "missing"),
        r => panic!("expected a missing seat, got {:?}", r),
    }
    assert_eq!(ji.device(&state, 9), Ok(0));
    assert_eq!(ji.device(&state, 8), Err(JayInputError::DeviceDoesNotExist(8)));
}

#[test]
fn repeat_rate_rejects_negatives() {
    let mut state = input_state();
    let ji = JayInput::new(5, ClientId(1));
    assert_eq!(
        ji.set_repeat_rate(&mut state, 0, -1, 0),
        Err(JayInputError::NegativeRepeatRate)
    );
    assert_eq!(
        ji.set_repeat_rate(&mut state, 0, 0, -1),
        Err(JayInputError::NegativeRepeatDelay)
    );
    assert!(ji.set_repeat_rate(&mut state, 0, 30, 300).is_ok());
    assert_eq!(state.seats[0].repeat_rate, 30);
    assert_eq!(state.seats[0].repeat_delay, 300);
}

#[test]
fn acceleration_profile_codes() {
    let mut state = input_state();
    let ji = JayInput::new(5, ClientId(1));
    assert_eq!(
        ji.set_accel_profile(&mut state, 0, 7),
        Err(JayInputError::UnknownAccelerationProfile(7))
    );
    assert!(ji.set_accel_profile(&mut state, 0, ACCEL_PROFILE_FLAT).is_ok());
    assert_eq!(state.devices[0].accel_profile, Some(ACCEL_PROFILE_FLAT));
    assert!(ji.set_accel_profile(&mut state, 0, ACCEL_PROFILE_ADAPTIVE).is_ok());
    assert_eq!(state.devices[0].accel_profile, Some(ACCEL_PROFILE_ADAPTIVE));
}

#[test]
fn attach_detach_and_events() {
    let mut state = input_state();
    let ji = JayInput::new(5, ClientId(1));
    ji.set_tap_drag_enabled(&mut state, 0, true);
    assert!(state.devices[0].tap_drag_enabled);
    ji.set_tap_drag_lock_enabled(&mut state, 0, true);
    assert!(state.devices[0].tap_drag_lock_enabled);
    ji.attach(&mut state, 0, 1);
    assert_eq!(state.devices[0].seat, Some(1));
    ji.detach(&mut state, 0);
    assert_eq!(state.devices[0].seat, None);
    match ji.send_seat(&state.seats[0]) {
        JayInputEvent::Seat { self_id, name, repeat_rate, repeat_delay, hardware_cursor } => {
            assert_eq!(self_id, 5);
            assert_eq!(name, "default");
            assert_eq!(repeat_rate, 25);
            assert_eq!(repeat_delay, 250);
            assert!(!hardware_cursor);
        }
        _ => panic!("expected a seat event"),
    }
    match ji.send_keymap(&state.seats[0]) {
        JayInputEvent::Keymap { self_id, keymap } => {
            assert_eq!(self_id, 5);
            assert_eq!(keymap, vec![1, 2, 3]);
        }
        _ => panic!("expected a keymap event"),
    }
    match ji.send_input_device(&state.devices[0]) {
        JayInputEvent::InputDevice(d) => {
            assert_eq!(d.self_id, 5);
            assert_eq!(d.id, 9);
            assert_eq!(d.capabilities, vec![1, 3]);
            assert!(!d.accel_available);
            assert_eq!(d.accel_profile, 0);
        }
        _ => panic!("expected a device description"),
    }
    match ji.or_error(Err(JayInputError::SeatDoesNotExist("alpha".to_string()))) {
        Some(JayInputEvent::Error { self_id, msg }) => {
            assert_eq!(self_id, 5);
            assert_eq!(msg, "There is no seat called alpha");
        }
        _ => panic!("expected an error event"),
    }
    assert_eq!(
        JayInputError::DeviceDoesNotExist(17).message(),
        "There is no device with id 17"
    );
    assert_eq!(
        JayInputError::UnknownAccelerationProfile(-3).message(),
        "There is no acceleration profile with id -3"
    );
    assert!(ji.or_error(Ok(())).is_none());
}

#[test]
fn keymaps_and_scalar_settings() {
    let mut state = input_state();
    let ji = JayInput::new(5, ClientId(1));
    ji.set_keymap(&mut state, 0, vec![9, 9]);
    assert_eq!(state.seats[0].keymap, vec![9, 9]);
    match ji.get_keymap(&state, "default") {
        Ok(JayInputEvent::Keymap { self_id, keymap }) => {
            assert_eq!(self_id, 5);
            assert_eq!(keymap, vec![9, 9]);
        }
        _ => panic!("expected the keymap event"),
    }
    assert!(ji.get_keymap(&state, "missing").is_err());
    ji.set_accel_speed(&mut state, 0, 77);
    assert_eq!(state.devices[0].accel_speed_bits, 77);
    ji.set_px_per_wheel_scroll(&mut state, 0, 88);
    assert_eq!(state.devices[0].px_per_wheel_scroll_bits, 88);
    ji.set_transform_matrix(&mut state, 0, [1, 2, 3, 4]);
    assert_eq!(state.devices[0].transform_matrix_bits, [1, 2, 3, 4]);
    let all = ji.get_all(&state);
    assert_eq!(all.len(), 2);
    assert!(matches!(all[0], JayInputEvent::Seat { .. }));
    match &all[1] {
        JayInputEvent::InputDevice(d) => {
            assert_eq!(d.id, 9);
            assert_eq!(d.accel_speed_bits, 77);
        }
        _ => panic!("expected a device description"),
    }
}

fn proxy() -> ConfigProxyHandler {
    ConfigProxyHandler {
        next_id: 1,
        seats: vec![],
        keymaps: vec![],
        devices: vec![CfgDevice { device: InputDevice::Keyboard(3), seat: None }],
        have_forker: false,
    }
}

#[test]
fn config_seat_creation_and_listing() {
    let mut p = proxy();
    let resp = p.handle_create_seat(&"default".to_string());
    match resp {
        Response::CreateSeat { seat } => assert_eq!(seat, Seat(1)),
        _ => panic!("expected a seat response"),
    }
    match p.handle_get_seats() {
        Response::GetSeats { seats } => assert_eq!(seats, vec![Seat(1)]),
        _ => panic!("expected the seat list"),
    }
    match p.handle_get_input_devices() {
        Response::GetInputDevices { devices } => {
            assert_eq!(devices, vec![InputDevice::Keyboard(3)])
        }
        _ => panic!("expected the device list"),
    }
}

#[test]
fn config_keymap_flow() {
    let mut p = proxy();
    let (resp, res) = p.handle_parse_keymap(true);
    assert!(res.is_ok());
    let keymap = match resp {
        Response::ParseKeymap { keymap } => keymap,
        _ => panic!("expected a keymap response"),
    };
    assert_eq!(keymap, Keymap(1));
    let (resp, res) = p.handle_parse_keymap(false);
    assert_eq!(res, Err(CphError::KeymapParsingFailed));
    match resp {
        Response::ParseKeymap { keymap } => assert_eq!(keymap, Keymap(0)),
        _ => panic!("expected a keymap response"),
    }
    p.handle_create_seat(&"default".to_string());
    assert!(p.handle_set_keymap(Seat(2), keymap).is_ok());
    assert_eq!(p.seats[0].keymap, keymap);
    // The invalid handle selects the default keymap.
    assert!(p.handle_set_keymap(Seat(2), Keymap(0)).is_ok());
    assert_eq!(p.seats[0].keymap, Keymap(0));
    assert_eq!(
        p.handle_set_keymap(Seat(2), Keymap(77)),
        Err(CphError::KeymapDoesNotExist(Keymap(77)))
    );
}

#[test]
fn config_validations() {
    let mut p = proxy();
    p.handle_create_seat(&"default".to_string());
    assert_eq!(
        p.handle_set_repeat_rate(Seat(9), 1, 1),
        Err(CphError::SeatDoesNotExist(Seat(9)))
    );
    assert_eq!(p.handle_set_repeat_rate(Seat(1), -1, 1), Err(CphError::NegativeRate));
    assert_eq!(p.handle_set_repeat_rate(Seat(1), 1, -1), Err(CphError::NegativeDelay));
    assert!(p.handle_set_repeat_rate(Seat(1), 40, 400).is_ok());
    match p.handle_get_repeat_rate(Seat(1)).unwrap() {
        Response::GetRepeatRate { rate, delay } => {
            assert_eq!(rate, 40);
            assert_eq!(delay, 400);
        }
        _ => panic!("expected the repeat rate"),
    }
    assert!(p.handle_set_split(Seat(1), Axis::Vertical).is_ok());
    match p.handle_get_split(Seat(1)).unwrap() {
        Response::GetSplit { axis } => assert_eq!(axis, Axis::Vertical),
        _ => panic!("expected the split axis"),
    }
    assert_eq!(
        p.handle_set_seat(InputDevice::Mouse(5), Seat(1)),
        Err(CphError::DeviceDoesNotExist(InputDevice::Mouse(5)))
    );
    assert!(p.handle_set_seat(InputDevice::Keyboard(3), Seat(1)).is_ok());
    assert_eq!(p.devices[0].seat, Some(Seat(1)));
    assert_eq!(p.handle_run(), Err(CphError::NoForker));
}

#[test]
fn accepted_but_unimplemented_requests_change_nothing() {
    let mut p = proxy();
    p.handle_create_seat(&"default".to_string());
    let before_seats = p.seats.len();
    let (r, res) = p.handle_request_(
        ClientMessage::Move { seat: Seat(1), direction: Direction::Left },
        false,
    );
    assert!(res.is_ok());
    assert!(r.is_empty());
    let (r, res) = p.handle_request_(
        ClientMessage::RemoveShortcut { seat: Seat(1), mods: 4, sym: 38 },
        false,
    );
    assert!(res.is_ok());
    assert!(r.is_empty());
    let (r, res) = p.handle_request_(ClientMessage::RemoveSeat { seat: Seat(1) }, false);
    assert!(res.is_ok());
    assert!(r.is_empty());
    assert_eq!(p.seats.len(), before_seats);
}

#[test]
fn dispatch_routes_requests() {
    let mut p = proxy();
    let (r, res) = p.handle_request_(
        ClientMessage::CreateSeat { name: "default".to_string() },
        false,
    );
    assert!(res.is_ok());
    assert_eq!(r.len(), 1);
    let (r, res) = p.handle_request_(ClientMessage::GetSeats, false);
    assert!(res.is_ok());
    match &r[0] {
        Response::GetSeats { seats } => assert_eq!(seats, &vec![Seat(1)]),
        _ => panic!("expected the seat list"),
    }
    let (r, res) = p.handle_request_(
        ClientMessage::AddShortcut { seat: Seat(9), mods: 0, sym: 1 },
        false,
    );
    assert!(r.is_empty());
    assert_eq!(res, Err(CphError::SeatDoesNotExist(Seat(9))));
    let (r, res) = p.handle_request_(
        ClientMessage::AddShortcut { seat: Seat(1), mods: 4, sym: 38 },
        false,
    );
    assert!(r.is_empty());
    assert!(res.is_ok());
    assert_eq!(p.seats[0].shortcuts.len(), 1);
    // A refused keymap still gets its answer carrying the invalid handle.
    let (r, res) = p.handle_request_(
        ClientMessage::ParseKeymap { keymap: "bad".to_string() },
        false,
    );
    assert_eq!(res, Err(CphError::KeymapParsingFailed));
    match &r[0] {
        Response::ParseKeymap { keymap } => assert_eq!(*keymap, Keymap(0)),
        _ => panic!("expected the keymap response"),
    }
    let (r, res) = p.handle_request_(
        ClientMessage::ParseKeymap { keymap: "keymap text".to_string() },
        true,
    );
    assert!(res.is_ok());
    match &r[0] {
        Response::ParseKeymap { keymap } => assert_ne!(*keymap, Keymap(0)),
        _ => panic!("expected the keymap response"),
    }
    let _ = CfgSeat {
        id: 0,
        name: String::new(),
        repeat_rate: 0,
        repeat_delay: 0,
        split: Axis::Horizontal,
        keymap: Keymap(0),
        shortcuts: vec![],
    };
}
