//! The input-management interface: a per-client object through which a
//! privileged client inspects and configures seats and input devices. The
//! wire transport and the input backend are outside collaborators; the
//! lookups, validations and settings changes are modelled and verified
//! here over a table of seats and devices.

use vstd::prelude::*;

use crate::acceptor::{decimal, format_decimal};
use crate::ids::ClientId;

verus! {

/// The decimal rendering of a signed number: a sign for a negative value,
/// then the digits of its magnitude.
pub open spec fn signed_decimal(n: i32) -> Seq<char> {
    if n >= 0 {
        decimal(n as u32)
    } else {
        seq!['-'] + decimal((-(n as int)) as u32)
    }
}

/// Render a signed number in decimal.
pub fn format_signed_decimal(n: i32) -> (r: String)
    ensures
        r@ =~= signed_decimal(n),
{
    if n >= 0 {
        format_decimal(n as u32)
    } else {
        proof {
            reveal_strlit("-");
        }
        let mut s = String::from_str("-");
        let magnitude = if n == i32::MIN {
            0x8000_0000u32
        } else {
            (-n) as u32
        };
        s.append(format_decimal(magnitude).as_str());
        s
    }
}

/// Acceleration-profile codes as the input library numbers them.
pub const ACCEL_PROFILE_FLAT: i32 = 1;

pub const ACCEL_PROFILE_ADAPTIVE: i32 = 2;

/// Why an input-management request failed.
#[derive(Clone, PartialEq, Eq, Debug)]
pub enum JayInputError {
    /// The wire object could not be used.
    ClientError,
    /// No seat bears the requested name.
    SeatDoesNotExist(String),
    /// No input device has the requested id.
    DeviceDoesNotExist(u32),
    /// The requested acceleration profile code is not known.
    UnknownAccelerationProfile(i32),
    /// A repeat rate must not be negative.
    NegativeRepeatRate,
    /// A repeat delay must not be negative.
    NegativeRepeatDelay,
    /// Client memory could not be read.
    ClientMemError,
    /// A keymap could not be parsed.
    XkbCommonError,
}

impl JayInputError {
    /// The description of this failure, as the error event reports it.
    pub open spec fn spec_message(self) -> Seq<char> {
        match self {
            JayInputError::ClientError => "The client connection could not be used"@,
            JayInputError::SeatDoesNotExist(n) => "There is no seat called "@ + n@,
            JayInputError::DeviceDoesNotExist(id) => "There is no device with id "@ + decimal(id),
            JayInputError::UnknownAccelerationProfile(p) => "There is no acceleration profile with id "@
                + signed_decimal(p),
            JayInputError::NegativeRepeatRate => "Repeat rate must not be negative"@,
            JayInputError::NegativeRepeatDelay => "Repeat delay must not be negative"@,
            JayInputError::ClientMemError => "Could not access client memory"@,
            JayInputError::XkbCommonError => "Could not parse keymap"@,
        }
    }

    /// Render the failure for the client's error event.
    pub fn message(&self) -> (r: String)
        ensures
            r@ =~= self.spec_message(),
    {
        match self {
            JayInputError::ClientError => String::from_str(
                "The client connection could not be used",
            ),
            JayInputError::SeatDoesNotExist(n) => {
                let mut s = String::from_str("There is no seat called ");
                s.append(n.as_str());
                s
            },
            JayInputError::DeviceDoesNotExist(id) => {
                let mut s = String::from_str("There is no device with id ");
                s.append(format_decimal(*id).as_str());
                s
            },
            JayInputError::UnknownAccelerationProfile(p) => {
                let mut s = String::from_str("There is no acceleration profile with id ");
                s.append(format_signed_decimal(*p).as_str());
                s
            },
            JayInputError::NegativeRepeatRate => String::from_str(
                "Repeat rate must not be negative",
            ),
            JayInputError::NegativeRepeatDelay => String::from_str(
                "Repeat delay must not be negative",
            ),
            JayInputError::ClientMemError => String::from_str("Could not access client memory"),
            JayInputError::XkbCommonError => String::from_str("Could not parse keymap"),
        }
    }
}

/// One seat's configurable state.
pub struct SeatInfo {
    pub id: u64,
    pub name: String,
    pub repeat_rate: i32,
    pub repeat_delay: i32,
    pub hardware_cursor: bool,
    pub cursor_size: u32,
    pub keymap: Vec<u8>,
}

/// One input device's configurable state. Scalar settings whose values the
/// engine never computes with (acceleration speed, scroll distance, the
/// transform matrix) are carried as opaque bit patterns; capabilities are
/// carried as the input library's raw codes.
pub struct DeviceInfo {
    pub id: u32,
    pub seat: Option<u64>,
    pub capabilities: Vec<u32>,
    pub accel_profile: Option<i32>,
    pub accel_speed_bits: u64,
    pub left_handed: bool,
    pub natural_scrolling: bool,
    pub tap_enabled: bool,
    pub tap_drag_enabled: bool,
    pub tap_drag_lock_enabled: bool,
    pub px_per_wheel_scroll_bits: u64,
    pub transform_matrix_bits: [u64; 4],
}

/// The seats and devices the interface manages.
pub struct InputState {
    pub seats: Vec<SeatInfo>,
    pub devices: Vec<DeviceInfo>,
}

/// The full description of one input device, as the interface reports it.
pub struct InputDeviceDesc {
    pub self_id: u64,
    pub id: u32,
    pub seat: Option<u64>,
    pub capabilities: Vec<u32>,
    pub accel_available: bool,
    pub accel_profile: i32,
    pub accel_speed_bits: u64,
    pub left_handed: bool,
    pub natural_scrolling: bool,
    pub tap_enabled: bool,
    pub tap_drag_enabled: bool,
    pub tap_drag_lock_enabled: bool,
    pub px_per_wheel_scroll_bits: u64,
    pub transform_matrix_bits: [u64; 4],
}

/// Events the interface owes its client.
pub enum JayInputEvent {
    Seat { self_id: u64, name: String, repeat_rate: i32, repeat_delay: i32, hardware_cursor: bool },
    Error { self_id: u64, msg: String },
    Keymap { self_id: u64, keymap: Vec<u8> },
    InputDevice(InputDeviceDesc),
}

/// The per-client input-management object.
pub struct JayInput {
    pub id: u64,
    pub client: ClientId,
}

/// First index in `seats` whose name reads `name`, or the length.
pub open spec fn seat_name_index(seats: Seq<SeatInfo>, name: Seq<char>) -> int
    decreases seats.len(),
{
    if seats.len() == 0 {
        0
    } else if seats[0].name@ == name {
        0
    } else {
        1 + seat_name_index(seats.skip(1), name)
    }
}

pub open spec fn has_seat_name(seats: Seq<SeatInfo>, name: Seq<char>) -> bool {
    seat_name_index(seats, name) < seats.len()
}

/// Defining properties of `seat_name_index`.
pub proof fn lemma_seat_name_index(seats: Seq<SeatInfo>, name: Seq<char>)
    ensures
        0 <= seat_name_index(seats, name) <= seats.len(),
        has_seat_name(seats, name) ==> seats[seat_name_index(seats, name)].name@ == name,
        forall|i: int| 0 <= i < seat_name_index(seats, name) ==> seats[i].name@ != name,
        has_seat_name(seats, name) <==> exists|i: int|
            0 <= i < seats.len() && (#[trigger] seats[i]).name@ == name,
    decreases seats.len(),
{
    if seats.len() > 0 && seats[0].name@ != name {
        lemma_seat_name_index(seats.skip(1), name);
        assert forall|i: int| 0 <= i < seat_name_index(seats, name) implies seats[i].name@
            != name by {
            if i >= 1 {
                assert(seats.skip(1)[i - 1] == seats[i]);
            }
        }
        if has_seat_name(seats, name) {
            assert(seats.skip(1)[seat_name_index(seats.skip(1), name)] == seats[seat_name_index(
                seats,
                name,
            )]);
        }
        if exists|i: int| 0 <= i < seats.len() && (#[trigger] seats[i]).name@ == name {
            let i = choose|i: int| 0 <= i < seats.len() && (#[trigger] seats[i]).name@ == name;
            assert(seats.skip(1)[i - 1] == seats[i]);
        }
    }
}

/// First index in `devices` with id `id`, or the length.
pub open spec fn device_id_index(devices: Seq<DeviceInfo>, id: u32) -> int
    decreases devices.len(),
{
    if devices.len() == 0 {
        0
    } else if devices[0].id == id {
        0
    } else {
        1 + device_id_index(devices.skip(1), id)
    }
}

pub open spec fn has_device_id(devices: Seq<DeviceInfo>, id: u32) -> bool {
    device_id_index(devices, id) < devices.len()
}

/// Defining properties of `device_id_index`.
pub proof fn lemma_device_id_index(devices: Seq<DeviceInfo>, id: u32)
    ensures
        0 <= device_id_index(devices, id) <= devices.len(),
        has_device_id(devices, id) ==> devices[device_id_index(devices, id)].id == id,
        forall|i: int| 0 <= i < device_id_index(devices, id) ==> devices[i].id != id,
        has_device_id(devices, id) <==> exists|i: int|
            0 <= i < devices.len() && (#[trigger] devices[i]).id == id,
    decreases devices.len(),
{
    if devices.len() > 0 && devices[0].id != id {
        lemma_device_id_index(devices.skip(1), id);
        assert forall|i: int| 0 <= i < device_id_index(devices, id) implies devices[i].id
            != id by {
            if i >= 1 {
                assert(devices.skip(1)[i - 1] == devices[i]);
            }
        }
        if has_device_id(devices, id) {
            assert(devices.skip(1)[device_id_index(devices.skip(1), id)] == devices[device_id_index(
                devices,
                id,
            )]);
        }
        if exists|i: int| 0 <= i < devices.len() && (#[trigger] devices[i]).id == id {
            let i = choose|i: int| 0 <= i < devices.len() && (#[trigger] devices[i]).id == id;
            assert(devices.skip(1)[i - 1] == devices[i]);
        }
    }
}

fn copy_words(v: &Vec<u32>) -> (r: Vec<u32>)
    ensures
        r@ == v@,
{
    let mut r: Vec<u32> = Vec::new();
    let mut i: usize = 0;
    while i < v.len()
        invariant
            0 <= i <= v@.len(),
            r@ =~= v@.take(i as int),
        decreases v@.len() - i,
    {
        r.push(v[i]);
        proof {
            assert(r@ =~= v@.take(i as int + 1));
        }
        i = i + 1;
    }
    proof {
        assert(v@.take(v@.len() as int) =~= v@);
    }
    r
}

fn copy_bytes(v: &Vec<u8>) -> (r: Vec<u8>)
    ensures
        r@ == v@,
{
    let mut r: Vec<u8> = Vec::new();
    let mut i: usize = 0;
    while i < v.len()
        invariant
            0 <= i <= v@.len(),
            r@ =~= v@.take(i as int),
        decreases v@.len() - i,
    {
        r.push(v[i]);
        proof {
            assert(r@ =~= v@.take(i as int + 1));
        }
        i = i + 1;
    }
    proof {
        assert(v@.take(v@.len() as int) =~= v@);
    }
    r
}

impl JayInput {
    pub fn new(id: u64, client: ClientId) -> (r: JayInput)
        ensures
            r.id == id,
            r.client == client,
    {
        JayInput { id, client }
    }

    /// Look a seat up by name.
    #[verifier::loop_isolation(false)]
    pub fn seat(&self, state: &InputState, name: &str) -> (r: Result<usize, JayInputError>)
        ensures
            match r {
                Ok(i) => i as int == seat_name_index(state.seats@, name@) && i < state.seats@.len()
                    && state.seats@[i as int].name@ == name@,
                Err(e) => !has_seat_name(state.seats@, name@) && (e matches
                    JayInputError::SeatDoesNotExist(n) && n@ == name@),
            },
    {
        proof {
            lemma_seat_name_index(state.seats@, name@);
        }
        let name_owned = String::from_str(name);
        let mut i: usize = 0;
        while i < state.seats.len()
            invariant
                0 <= i <= state.seats@.len(),
                name_owned@ == name@,
                forall|j: int| 0 <= j < i ==> (#[trigger] state.seats@[j]).name@ != name@,
            decreases state.seats@.len() - i,
        {
            if state.seats[i].name == name_owned {
                return Ok(i);
            }
            i = i + 1;
        }
        Err(JayInputError::SeatDoesNotExist(name_owned))
    }

    /// Look a device up by id.
    #[verifier::loop_isolation(false)]
    pub fn device(&self, state: &InputState, id: u32) -> (r: Result<usize, JayInputError>)
        ensures
            match r {
                Ok(i) => i as int == device_id_index(state.devices@, id) && i
                    < state.devices@.len() && state.devices@[i as int].id == id,
                Err(e) => !has_device_id(state.devices@, id) && e == (
                JayInputError::DeviceDoesNotExist(id)),
            },
    {
        proof {
            lemma_device_id_index(state.devices@, id);
        }
        let mut i: usize = 0;
        while i < state.devices.len()
            invariant
                0 <= i <= state.devices@.len(),
                forall|j: int| 0 <= j < i ==> (#[trigger] state.devices@[j]).id != id,
            decreases state.devices@.len() - i,
        {
            if state.devices[i].id == id {
                return Ok(i);
            }
            i = i + 1;
        }
        Err(JayInputError::DeviceDoesNotExist(id))
    }

    /// Turn a failed request into the error event its client is owed; a
    /// successful request owes nothing.
    pub fn or_error(&self, r: Result<(), JayInputError>) -> (out: Option<JayInputEvent>)
        ensures
            r is Ok ==> out is None,
            r matches Err(e) ==> out matches Some(ev) && ev matches JayInputEvent::Error {
                self_id,
                msg,
            } && self_id == self.id && msg@ == e.spec_message(),
    {
        match r {
            Ok(_) => None,
            Err(e) => Some(JayInputEvent::Error { self_id: self.id, msg: e.message() }),
        }
    }

    /// The event describing one seat.
    pub fn send_seat(&self, data: &SeatInfo) -> (r: JayInputEvent)
        ensures
            r matches JayInputEvent::Seat { self_id, name, repeat_rate, repeat_delay, hardware_cursor }
                && self_id == self.id && name@ == data.name@ && repeat_rate == data.repeat_rate
                && repeat_delay == data.repeat_delay && hardware_cursor == data.hardware_cursor,
    {
        JayInputEvent::Seat {
            self_id: self.id,
            name: String::from_str(data.name.as_str()),
            repeat_rate: data.repeat_rate,
            repeat_delay: data.repeat_delay,
            hardware_cursor: data.hardware_cursor,
        }
    }

    /// The error event with a given message.
    pub fn send_error(&self, error: String) -> (r: JayInputEvent)
        ensures
            r == (JayInputEvent::Error { self_id: self.id, msg: error }),
    {
        JayInputEvent::Error { self_id: self.id, msg: error }
    }

    /// The event carrying one seat's keymap.
    pub fn send_keymap(&self, data: &SeatInfo) -> (r: JayInputEvent)
        ensures
            r matches JayInputEvent::Keymap { self_id, keymap } && self_id == self.id && keymap@
                == data.keymap@,
    {
        JayInputEvent::Keymap { self_id: self.id, keymap: copy_bytes(&data.keymap) }
    }

    /// The event describing one input device in full: its seat attachment,
    /// capability codes and every configurable setting.
    pub fn send_input_device(&self, data: &DeviceInfo) -> (r: JayInputEvent)
        ensures
            r matches JayInputEvent::InputDevice(d) && d.self_id == self.id && d.id == data.id
                && d.seat == data.seat && d.capabilities@ == data.capabilities@
                && d.accel_available == (data.accel_profile is Some) && d.accel_profile == (
            match data.accel_profile {
                Some(p) => p,
                None => 0,
            }) && d.accel_speed_bits == data.accel_speed_bits && d.left_handed == data.left_handed
                && d.natural_scrolling == data.natural_scrolling && d.tap_enabled
                == data.tap_enabled && d.tap_drag_enabled == data.tap_drag_enabled
                && d.tap_drag_lock_enabled == data.tap_drag_lock_enabled
                && d.px_per_wheel_scroll_bits == data.px_per_wheel_scroll_bits
                && d.transform_matrix_bits == data.transform_matrix_bits,
    {
        let accel_profile = match data.accel_profile {
            Some(p) => p,
            None => 0,
        };
        JayInputEvent::InputDevice(
            InputDeviceDesc {
                self_id: self.id,
                id: data.id,
                seat: data.seat,
                capabilities: copy_words(&data.capabilities),
                accel_available: data.accel_profile.is_some(),
                accel_profile,
                accel_speed_bits: data.accel_speed_bits,
                left_handed: data.left_handed,
                natural_scrolling: data.natural_scrolling,
                tap_enabled: data.tap_enabled,
                tap_drag_enabled: data.tap_drag_enabled,
                tap_drag_lock_enabled: data.tap_drag_lock_enabled,
                px_per_wheel_scroll_bits: data.px_per_wheel_scroll_bits,
                transform_matrix_bits: data.transform_matrix_bits,
            },
        )
    }

    /// Set a seat's key repeat rate; negative values are refused.
    pub fn set_repeat_rate(
        &self,
        state: &mut InputState,
        seat: usize,
        rate: i32,
        delay: i32,
    ) -> (r: Result<(), JayInputError>)
        requires
            seat < old(state).seats@.len(),
        ensures
            final(state).devices == old(state).devices,
            rate < 0 ==> r == Err::<(), JayInputError>(JayInputError::NegativeRepeatRate)
                && *final(state) == *old(state),
            rate >= 0 && delay < 0 ==> r == Err::<(), JayInputError>(
                JayInputError::NegativeRepeatDelay,
            ) && *final(state) == *old(state),
            rate >= 0 && delay >= 0 ==> {
                &&& r is Ok
                &&& final(state).seats@.len() == old(state).seats@.len()
                &&& final(state).seats@[seat as int].repeat_rate == rate
                &&& final(state).seats@[seat as int].repeat_delay == delay
                &&& final(state).seats@[seat as int].id == old(state).seats@[seat as int].id
                &&& final(state).seats@[seat as int].name == old(state).seats@[seat as int].name
                &&& forall|i: int|
                    0 <= i < old(state).seats@.len() && i != seat ==> final(state).seats@[i] == old(
                        state,
                    ).seats@[i]
            },
    {
        if rate < 0 {
            return Err(JayInputError::NegativeRepeatRate);
        }
        if delay < 0 {
            return Err(JayInputError::NegativeRepeatDelay);
        }
        state.seats[seat].repeat_rate = rate;
        state.seats[seat].repeat_delay = delay;
        Ok(())
    }

    /// Set a device's acceleration profile from its wire code.
    pub fn set_accel_profile(&self, state: &mut InputState, device: usize, profile: i32) -> (r:
        Result<(), JayInputError>)
        requires
            device < old(state).devices@.len(),
        ensures
            final(state).seats == old(state).seats,
            profile != ACCEL_PROFILE_FLAT && profile != ACCEL_PROFILE_ADAPTIVE ==> r == Err::<
                (),
                JayInputError,
            >(JayInputError::UnknownAccelerationProfile(profile)) && *final(state) == *old(state),
            profile == ACCEL_PROFILE_FLAT || profile == ACCEL_PROFILE_ADAPTIVE ==> {
                &&& r is Ok
                &&& final(state).devices@.len() == old(state).devices@.len()
                &&& final(state).devices@[device as int].accel_profile == Some(profile)
                &&& final(state).devices@[device as int].id == old(
                    state,
                ).devices@[device as int].id
                &&& forall|i: int|
                    0 <= i < old(state).devices@.len() && i != device ==> final(state).devices@[i]
                        == old(state).devices@[i]
            },
    {
        if profile != ACCEL_PROFILE_FLAT && profile != ACCEL_PROFILE_ADAPTIVE {
            return Err(JayInputError::UnknownAccelerationProfile(profile));
        }
        state.devices[device].accel_profile = Some(profile);
        Ok(())
    }

    /// Enable or disable tap-to-click on a device.
    pub fn set_tap_enabled(&self, state: &mut InputState, device: usize, enabled: bool)
        requires
            device < old(state).devices@.len(),
        ensures
            final(state).seats == old(state).seats,
            final(state).devices@.len() == old(state).devices@.len(),
            final(state).devices@[device as int].tap_enabled == enabled,
            final(state).devices@[device as int].id == old(state).devices@[device as int].id,
            forall|i: int|
                0 <= i < old(state).devices@.len() && i != device ==> final(state).devices@[i]
                    == old(state).devices@[i],
    {
        state.devices[device].tap_enabled = enabled;
    }

    /// Enable or disable tap-and-drag on a device.
    pub fn set_tap_drag_enabled(&self, state: &mut InputState, device: usize, enabled: bool)
        requires
            device < old(state).devices@.len(),
        ensures
            final(state).seats == old(state).seats,
            final(state).devices@.len() == old(state).devices@.len(),
            final(state).devices@[device as int].tap_drag_enabled == enabled,
            final(state).devices@[device as int].id == old(state).devices@[device as int].id,
            forall|i: int|
                0 <= i < old(state).devices@.len() && i != device ==> final(state).devices@[i]
                    == old(state).devices@[i],
    {
        state.devices[device].tap_drag_enabled = enabled;
    }

    /// Enable or disable the drag lock of tap-and-drag on a device.
    pub fn set_tap_drag_lock_enabled(&self, state: &mut InputState, device: usize, enabled: bool)
        requires
            device < old(state).devices@.len(),
        ensures
            final(state).seats == old(state).seats,
            final(state).devices@.len() == old(state).devices@.len(),
            final(state).devices@[device as int].tap_drag_lock_enabled == enabled,
            final(state).devices@[device as int].id == old(state).devices@[device as int].id,
            forall|i: int|
                0 <= i < old(state).devices@.len() && i != device ==> final(state).devices@[i]
                    == old(state).devices@[i],
    {
        state.devices[device].tap_drag_lock_enabled = enabled;
    }

    /// Enable or disable left-handed button order on a device.
    pub fn set_left_handed(&self, state: &mut InputState, device: usize, enabled: bool)
        requires
            device < old(state).devices@.len(),
        ensures
            final(state).seats == old(state).seats,
            final(state).devices@.len() == old(state).devices@.len(),
            final(state).devices@[device as int].left_handed == enabled,
            final(state).devices@[device as int].id == old(state).devices@[device as int].id,
            forall|i: int|
                0 <= i < old(state).devices@.len() && i != device ==> final(state).devices@[i]
                    == old(state).devices@[i],
    {
        state.devices[device].left_handed = enabled;
    }

    /// Enable or disable natural scrolling on a device.
    pub fn set_natural_scrolling(&self, state: &mut InputState, device: usize, enabled: bool)
        requires
            device < old(state).devices@.len(),
        ensures
            final(state).seats == old(state).seats,
            final(state).devices@.len() == old(state).devices@.len(),
            final(state).devices@[device as int].natural_scrolling == enabled,
            final(state).devices@[device as int].id == old(state).devices@[device as int].id,
            forall|i: int|
                0 <= i < old(state).devices@.len() && i != device ==> final(state).devices@[i]
                    == old(state).devices@[i],
    {
        state.devices[device].natural_scrolling = enabled;
    }

    /// Attach a device to a seat.
    pub fn attach(&self, state: &mut InputState, device: usize, seat_id: u64)
        requires
            device < old(state).devices@.len(),
        ensures
            final(state).seats == old(state).seats,
            final(state).devices@.len() == old(state).devices@.len(),
            final(state).devices@[device as int].seat == Some(seat_id),
            final(state).devices@[device as int].id == old(state).devices@[device as int].id,
            forall|i: int|
                0 <= i < old(state).devices@.len() && i != device ==> final(state).devices@[i]
                    == old(state).devices@[i],
    {
        state.devices[device].seat = Some(seat_id);
    }

    /// Detach a device from its seat.
    pub fn detach(&self, state: &mut InputState, device: usize)
        requires
            device < old(state).devices@.len(),
        ensures
            final(state).seats == old(state).seats,
            final(state).devices@.len() == old(state).devices@.len(),
            final(state).devices@[device as int].seat is None,
            final(state).devices@[device as int].id == old(state).devices@[device as int].id,
            forall|i: int|
                0 <= i < old(state).devices@.len() && i != device ==> final(state).devices@[i]
                    == old(state).devices@[i],
    {
        state.devices[device].seat = None;
    }

    /// Install a parsed keymap on a seat. Reading the map out of client
    /// memory and parsing it belong to the edge; the bytes stored here are
    /// what `send_keymap` later reports.
    pub fn set_keymap(&self, state: &mut InputState, seat: usize, map: Vec<u8>)
        requires
            seat < old(state).seats@.len(),
        ensures
            final(state).devices == old(state).devices,
            final(state).seats@.len() == old(state).seats@.len(),
            final(state).seats@[seat as int].keymap@ == map@,
            final(state).seats@[seat as int].id == old(state).seats@[seat as int].id,
            final(state).seats@[seat as int].name == old(state).seats@[seat as int].name,
            forall|i: int|
                0 <= i < old(state).seats@.len() && i != seat ==> final(state).seats@[i] == old(
                    state,
                ).seats@[i],
    {
        state.seats[seat].keymap = map;
    }

    /// The keymap request: look the seat up by name and answer with its
    /// keymap event.
    pub fn get_keymap(&self, state: &InputState, name: &str) -> (r: Result<
        JayInputEvent,
        JayInputError,
    >)
        ensures
            match r {
                Ok(ev) => {
                    let i = seat_name_index(state.seats@, name@);
                    &&& has_seat_name(state.seats@, name@)
                    &&& ev matches JayInputEvent::Keymap { self_id, keymap } && self_id == self.id
                        && keymap@ == state.seats@[i].keymap@
                },
                Err(e) => !has_seat_name(state.seats@, name@) && (e matches
                    JayInputError::SeatDoesNotExist(n) && n@ == name@),
            },
    {
        let i = self.seat(state, name)?;
        Ok(self.send_keymap(&state.seats[i]))
    }

    /// Store a device's pointer-acceleration speed; the engine never
    /// computes with the scalar, so it is kept as its bit pattern.
    pub fn set_accel_speed(&self, state: &mut InputState, device: usize, speed_bits: u64)
        requires
            device < old(state).devices@.len(),
        ensures
            final(state).seats == old(state).seats,
            final(state).devices@.len() == old(state).devices@.len(),
            final(state).devices@[device as int].accel_speed_bits == speed_bits,
            final(state).devices@[device as int].id == old(state).devices@[device as int].id,
            forall|i: int|
                0 <= i < old(state).devices@.len() && i != device ==> final(state).devices@[i]
                    == old(state).devices@[i],
    {
        state.devices[device].accel_speed_bits = speed_bits;
    }

    /// Store a device's scroll distance per wheel notch, as its bit pattern.
    pub fn set_px_per_wheel_scroll(&self, state: &mut InputState, device: usize, px_bits: u64)
        requires
            device < old(state).devices@.len(),
        ensures
            final(state).seats == old(state).seats,
            final(state).devices@.len() == old(state).devices@.len(),
            final(state).devices@[device as int].px_per_wheel_scroll_bits == px_bits,
            final(state).devices@[device as int].id == old(state).devices@[device as int].id,
            forall|i: int|
                0 <= i < old(state).devices@.len() && i != device ==> final(state).devices@[i]
                    == old(state).devices@[i],
    {
        state.devices[device].px_per_wheel_scroll_bits = px_bits;
    }

    /// Store a device's input transform matrix, as the bit patterns of its
    /// four entries.
    pub fn set_transform_matrix(&self, state: &mut InputState, device: usize, matrix_bits: [u64; 4])
        requires
            device < old(state).devices@.len(),
        ensures
            final(state).seats == old(state).seats,
            final(state).devices@.len() == old(state).devices@.len(),
            final(state).devices@[device as int].transform_matrix_bits == matrix_bits,
            final(state).devices@[device as int].id == old(state).devices@[device as int].id,
            forall|i: int|
                0 <= i < old(state).devices@.len() && i != device ==> final(state).devices@[i]
                    == old(state).devices@[i],
    {
        state.devices[device].transform_matrix_bits = matrix_bits;
    }

    /// The full listing: one seat event per seat, then one device
    /// description per device, in table order.
    #[verifier::loop_isolation(false)]
    pub fn get_all(&self, state: &InputState) -> (r: Vec<JayInputEvent>)
        ensures
            r@.len() == state.seats@.len() + state.devices@.len(),
            forall|i: int|
                0 <= i < state.seats@.len() ==> (#[trigger] r@[i] matches JayInputEvent::Seat {
                    self_id,
                    name,
                    repeat_rate,
                    repeat_delay,
                    hardware_cursor,
                } && self_id == self.id && name@ == state.seats@[i].name@ && repeat_rate
                    == state.seats@[i].repeat_rate && repeat_delay == state.seats@[i].repeat_delay
                    && hardware_cursor == state.seats@[i].hardware_cursor),
            forall|i: int|
                0 <= i < state.devices@.len() ==> (#[trigger] r@[state.seats@.len() + i] matches
                    JayInputEvent::InputDevice(d) && d.self_id == self.id && d.id
                    == state.devices@[i].id && d.seat == state.devices@[i].seat && d.capabilities@
                    == state.devices@[i].capabilities@),
    {
        let mut r: Vec<JayInputEvent> = Vec::new();
        let mut i: usize = 0;
        while i < state.seats.len()
            invariant
                0 <= i <= state.seats@.len(),
                r@.len() == i,
                forall|j: int|
                    0 <= j < i ==> (#[trigger] r@[j] matches JayInputEvent::Seat {
                        self_id,
                        name,
                        repeat_rate,
                        repeat_delay,
                        hardware_cursor,
                    } && self_id == self.id && name@ == state.seats@[j].name@ && repeat_rate
                        == state.seats@[j].repeat_rate && repeat_delay
                        == state.seats@[j].repeat_delay && hardware_cursor
                        == state.seats@[j].hardware_cursor),
            decreases state.seats@.len() - i,
        {
            let ev = self.send_seat(&state.seats[i]);
            r.push(ev);
            i = i + 1;
        }
        let mut k: usize = 0;
        while k < state.devices.len()
            invariant
                0 <= k <= state.devices@.len(),
                r@.len() == state.seats@.len() + k,
                forall|j: int|
                    0 <= j < state.seats@.len() ==> (#[trigger] r@[j] matches JayInputEvent::Seat {
                        self_id,
                        name,
                        repeat_rate,
                        repeat_delay,
                        hardware_cursor,
                    } && self_id == self.id && name@ == state.seats@[j].name@ && repeat_rate
                        == state.seats@[j].repeat_rate && repeat_delay
                        == state.seats@[j].repeat_delay && hardware_cursor
                        == state.seats@[j].hardware_cursor),
                forall|j: int|
                    0 <= j < k ==> (#[trigger] r@[state.seats@.len() + j] matches
                        JayInputEvent::InputDevice(d) && d.self_id == self.id && d.id
                        == state.devices@[j].id && d.seat == state.devices@[j].seat
                        && d.capabilities@ == state.devices@[j].capabilities@),
            decreases state.devices@.len() - k,
        {
            let ev = self.send_input_device(&state.devices[k]);
            r.push(ev);
            k = k + 1;
        }
        r
    }

    /// Set a seat's cursor size.
    pub fn set_cursor_size(&self, state: &mut InputState, seat: usize, size: u32)
        requires
            seat < old(state).seats@.len(),
        ensures
            final(state).devices == old(state).devices,
            final(state).seats@.len() == old(state).seats@.len(),
            final(state).seats@[seat as int].cursor_size == size,
            final(state).seats@[seat as int].id == old(state).seats@[seat as int].id,
            forall|i: int|
                0 <= i < old(state).seats@.len() && i != seat ==> final(state).seats@[i] == old(
                    state,
                ).seats@[i],
    {
        state.seats[seat].cursor_size = size;
    }

    /// Enable or disable the hardware cursor on a seat.
    pub fn use_hardware_cursor(&self, state: &mut InputState, seat: usize, use_hw: bool)
        requires
            seat < old(state).seats@.len(),
        ensures
            final(state).devices == old(state).devices,
            final(state).seats@.len() == old(state).seats@.len(),
            final(state).seats@[seat as int].hardware_cursor == use_hw,
            final(state).seats@[seat as int].id == old(state).seats@[seat as int].id,
            forall|i: int|
                0 <= i < old(state).seats@.len() && i != seat ==> final(state).seats@[i] == old(
                    state,
                ).seats@[i],
    {
        state.seats[seat].hardware_cursor = use_hw;
    }
}

} // verus!
