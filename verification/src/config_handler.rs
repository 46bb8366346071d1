//! The configuration-client proxy: dispatch of the configuration
//! protocol's requests onto the server's seat and device tables. The
//! dynamically loaded configuration library and the byte transport are
//! outside collaborators at the program's edge; the request decisions,
//! lookups and validations are modelled and verified here.

use vstd::prelude::*;

use crate::selection::{has_key, key_index, lemma_key_index};

verus! {

/// Severities of a configuration client's log requests.
#[derive(Clone, Copy, PartialEq, Eq, Structural, Debug)]
pub enum LogLevel {
    Error,
    Warn,
    Info,
    Debug,
    Trace,
}

/// A split axis of the window tree.
#[derive(Clone, Copy, PartialEq, Eq, Structural, Debug)]
pub enum Axis {
    Horizontal,
    Vertical,
}

/// A focus direction.
#[derive(Clone, Copy, PartialEq, Eq, Structural, Debug)]
pub enum Direction {
    Left,
    Down,
    Up,
    Right,
}

/// A seat handle of the configuration protocol.
#[derive(Clone, Copy, PartialEq, Eq, Structural, Debug)]
pub struct Seat(pub u64);

/// A keymap handle of the configuration protocol; zero is the invalid
/// handle, standing for the default keymap.
#[derive(Clone, Copy, PartialEq, Eq, Structural, Debug)]
pub struct Keymap(pub u64);

impl Keymap {
    pub fn is_invalid(&self) -> (r: bool)
        ensures
            r == (self.0 == 0),
    {
        self.0 == 0
    }
}

/// An input-device handle of the configuration protocol.
#[derive(Clone, Copy, PartialEq, Eq, Structural, Debug)]
pub enum InputDevice {
    Keyboard(u64),
    Mouse(u64),
}

/// The requests a configuration client can make.
pub enum ClientMessage {
    Log { level: LogLevel, msg: String, file: Option<String>, line: Option<u32> },
    CreateSeat { name: String },
    ParseKeymap { keymap: String },
    SeatSetKeymap { seat: Seat, keymap: Keymap },
    SeatGetRepeatRate { seat: Seat },
    SeatSetRepeatRate { seat: Seat, rate: i32, delay: i32 },
    SetSeat { device: InputDevice, seat: Seat },
    GetSplit { seat: Seat },
    SetSplit { seat: Seat, axis: Axis },
    AddShortcut { seat: Seat, mods: u32, sym: u32 },
    RemoveShortcut { seat: Seat, mods: u32, sym: u32 },
    Focus { seat: Seat, direction: Direction },
    Move { seat: Seat, direction: Direction },
    GetInputDevices,
    GetSeats,
    RemoveSeat { seat: Seat },
    Run { prog: String, args: Vec<String>, env: Vec<String> },
}

/// The answers the server sends back.
pub enum Response {
    CreateSeat { seat: Seat },
    ParseKeymap { keymap: Keymap },
    GetRepeatRate { rate: i32, delay: i32 },
    GetSplit { axis: Axis },
    GetInputDevices { devices: Vec<InputDevice> },
    GetSeats { seats: Vec<Seat> },
}

/// Why a request failed. Failures are logged, never fatal to the proxy.
#[derive(Clone, Copy, PartialEq, Eq, Structural, Debug)]
pub enum CphError {
    SeatDoesNotExist(Seat),
    KeymapDoesNotExist(Keymap),
    DeviceDoesNotExist(InputDevice),
    NegativeRate,
    NegativeDelay,
    KeymapParsingFailed,
    NoForker,
    ParsingFailed,
}

/// One seat as the configuration protocol sees it.
pub struct CfgSeat {
    pub id: u64,
    pub name: String,
    pub repeat_rate: i32,
    pub repeat_delay: i32,
    pub split: Axis,
    pub keymap: Keymap,
    pub shortcuts: Vec<u64>,
}

/// One input device and the seat it is attached to.
pub struct CfgDevice {
    pub device: InputDevice,
    pub seat: Option<Seat>,
}

/// The proxy's view of the server: its seats, parsed keymaps and devices.
/// Mutated only through the request handlers.
pub struct ConfigProxyHandler {
    pub next_id: u64,
    pub seats: Vec<CfgSeat>,
    pub keymaps: Vec<u64>,
    pub devices: Vec<CfgDevice>,
    pub have_forker: bool,
}

pub open spec fn cfg_seat_keys(seats: Seq<CfgSeat>) -> Seq<u64> {
    seats.map_values(|s: CfgSeat| s.id)
}

/// First index in `devices` holding `device`, or the length.
pub open spec fn cfg_device_index(devices: Seq<CfgDevice>, device: InputDevice) -> int
    decreases devices.len(),
{
    if devices.len() == 0 {
        0
    } else if devices[0].device == device {
        0
    } else {
        1 + cfg_device_index(devices.skip(1), device)
    }
}

pub open spec fn has_cfg_device(devices: Seq<CfgDevice>, device: InputDevice) -> bool {
    cfg_device_index(devices, device) < devices.len()
}

/// Defining properties of `cfg_device_index`.
pub proof fn lemma_cfg_device_index(devices: Seq<CfgDevice>, device: InputDevice)
    ensures
        0 <= cfg_device_index(devices, device) <= devices.len(),
        has_cfg_device(devices, device) ==> devices[cfg_device_index(devices, device)].device
            == device,
        forall|i: int| 0 <= i < cfg_device_index(devices, device) ==> devices[i].device != device,
        has_cfg_device(devices, device) <==> exists|i: int|
            0 <= i < devices.len() && (#[trigger] devices[i]).device == device,
    decreases devices.len(),
{
    if devices.len() > 0 && devices[0].device != device {
        lemma_cfg_device_index(devices.skip(1), device);
        assert forall|i: int| 0 <= i < cfg_device_index(devices, device) implies devices[i].device
            != device by {
            if i >= 1 {
                assert(devices.skip(1)[i - 1] == devices[i]);
            }
        }
        if has_cfg_device(devices, device) {
            assert(devices.skip(1)[cfg_device_index(devices.skip(1), device)]
                == devices[cfg_device_index(devices, device)]);
        }
        if exists|i: int| 0 <= i < devices.len() && (#[trigger] devices[i]).device == device {
            let i = choose|i: int|
                0 <= i < devices.len() && (#[trigger] devices[i]).device == device;
            assert(devices.skip(1)[i - 1] == devices[i]);
        }
    }
}

impl ConfigProxyHandler {
    /// Every keymap handle handed out so far lies below the counter, so
    /// the next handle is always fresh.
    pub open spec fn wf(self) -> bool {
        forall|i: int| 0 <= i < self.keymaps@.len() ==> #[trigger] self.keymaps@[i] < self.next_id
    }

    /// Mint the next fresh handle.
    pub fn id(&mut self) -> (r: u64)
        requires
            old(self).wf(),
            old(self).next_id < u64::MAX,
        ensures
            final(self).wf(),
            r == old(self).next_id,
            final(self).next_id == old(self).next_id + 1,
            final(self).seats == old(self).seats,
            final(self).keymaps == old(self).keymaps,
            final(self).devices == old(self).devices,
            final(self).have_forker == old(self).have_forker,
    {
        let r = self.next_id;
        self.next_id = self.next_id + 1;
        r
    }

    /// Find a seat by handle.
    #[verifier::loop_isolation(false)]
    pub fn get_seat(&self, seat: Seat) -> (r: Result<usize, CphError>)
        ensures
            match r {
                Ok(i) => i as int == key_index(cfg_seat_keys(self.seats@), seat.0) && i
                    < self.seats@.len() && self.seats@[i as int].id == seat.0,
                Err(e) => !has_key(cfg_seat_keys(self.seats@), seat.0) && e == (
                CphError::SeatDoesNotExist(seat)),
            },
    {
        proof {
            lemma_key_index(cfg_seat_keys(self.seats@), seat.0);
        }
        let mut i: usize = 0;
        while i < self.seats.len()
            invariant
                0 <= i <= self.seats@.len(),
                forall|j: int| 0 <= j < i ==> cfg_seat_keys(self.seats@)[j] != seat.0,
            decreases self.seats@.len() - i,
        {
            if self.seats[i].id == seat.0 {
                proof {
                    assert(cfg_seat_keys(self.seats@)[i as int] == seat.0);
                }
                return Ok(i);
            }
            i = i + 1;
        }
        Err(CphError::SeatDoesNotExist(seat))
    }

    /// Find a parsed keymap by handle.
    #[verifier::loop_isolation(false)]
    pub fn get_keymap(&self, keymap: Keymap) -> (r: Result<usize, CphError>)
        ensures
            match r {
                Ok(i) => i < self.keymaps@.len() && self.keymaps@[i as int] == keymap.0 && has_key(
                    self.keymaps@,
                    keymap.0,
                ),
                Err(e) => !has_key(self.keymaps@, keymap.0) && e == (CphError::KeymapDoesNotExist(
                    keymap,
                )),
            },
    {
        proof {
            lemma_key_index(self.keymaps@, keymap.0);
        }
        let mut i: usize = 0;
        while i < self.keymaps.len()
            invariant
                0 <= i <= self.keymaps@.len(),
                forall|j: int| 0 <= j < i ==> self.keymaps@[j] != keymap.0,
            decreases self.keymaps@.len() - i,
        {
            if self.keymaps[i] == keymap.0 {
                return Ok(i);
            }
            i = i + 1;
        }
        Err(CphError::KeymapDoesNotExist(keymap))
    }

    /// Find a device's handler data by handle.
    #[verifier::loop_isolation(false)]
    pub fn get_device_handler_data(&self, device: InputDevice) -> (r: Result<usize, CphError>)
        ensures
            match r {
                Ok(i) => i as int == cfg_device_index(self.devices@, device) && i
                    < self.devices@.len() && self.devices@[i as int].device == device,
                Err(e) => !has_cfg_device(self.devices@, device) && e == (
                CphError::DeviceDoesNotExist(device)),
            },
    {
        proof {
            lemma_cfg_device_index(self.devices@, device);
        }
        let mut i: usize = 0;
        while i < self.devices.len()
            invariant
                0 <= i <= self.devices@.len(),
                forall|j: int| 0 <= j < i ==> (#[trigger] self.devices@[j]).device != device,
            decreases self.devices@.len() - i,
        {
            if self.devices[i].device == device {
                return Ok(i);
            }
            i = i + 1;
        }
        Err(CphError::DeviceDoesNotExist(device))
    }

    /// A log request always succeeds; the text goes to the server's log at
    /// the program's edge.
    pub fn handle_log_request(
        &self,
        level: LogLevel,
        msg: &String,
        file: &Option<String>,
        line: Option<u32>,
    ) -> (r: Result<(), CphError>)
        ensures
            r is Ok,
    {
        let _ = level;
        let _ = msg;
        let _ = file;
        let _ = line;
        Ok(())
    }

    /// Create a seat under a fresh handle and answer with that handle.
    pub fn handle_create_seat(&mut self, name: &String) -> (r: Response)
        requires
            old(self).wf(),
            old(self).next_id < u64::MAX,
        ensures
            final(self).wf(),
            final(self).seats@.len() == old(self).seats@.len() + 1,
            final(self).seats@.take(old(self).seats@.len() as int) =~= old(self).seats@,
            ({
                let s = final(self).seats@.last();
                &&& s.id == old(self).next_id
                &&& s.name@ == name@
                &&& r == (Response::CreateSeat { seat: Seat(old(self).next_id) })
            }),
            final(self).next_id == old(self).next_id + 1,
            final(self).keymaps == old(self).keymaps,
            final(self).devices == old(self).devices,
    {
        let id = self.id();
        let seat = CfgSeat {
            id,
            name: String::from_str(name.as_str()),
            repeat_rate: 25,
            repeat_delay: 250,
            split: Axis::Horizontal,
            keymap: Keymap(0),
            shortcuts: Vec::new(),
        };
        self.seats.push(seat);
        Response::CreateSeat { seat: Seat(id) }
    }

    /// Register a keymap the parser accepted under a fresh handle, or
    /// answer with the invalid handle when parsing failed. Whether the
    /// text parses is decided by the keyboard library at the program's
    /// edge and handed in.
    pub fn handle_parse_keymap(&mut self, parsed: bool) -> (r: (Response, Result<(), CphError>))
        requires
            old(self).wf(),
            old(self).next_id < u64::MAX,
        ensures
            final(self).wf(),
            final(self).seats == old(self).seats,
            final(self).devices == old(self).devices,
            parsed ==> forall|i: int|
                0 <= i < old(self).keymaps@.len() ==> #[trigger] old(self).keymaps@[i] != old(self).next_id,
            parsed ==> {
                &&& final(self).keymaps@ =~= old(self).keymaps@.push(old(self).next_id)
                &&& final(self).next_id == old(self).next_id + 1
                &&& r.0 == (Response::ParseKeymap { keymap: Keymap(old(self).next_id) })
                &&& r.1 is Ok
            },
            !parsed ==> {
                &&& *final(self) == *old(self)
                &&& r.0 == (Response::ParseKeymap { keymap: Keymap(0) })
                &&& r.1 == Err::<(), CphError>(CphError::KeymapParsingFailed)
            },
    {
        if parsed {
            let id = self.id();
            self.keymaps.push(id);
            (Response::ParseKeymap { keymap: Keymap(id) }, Ok(()))
        } else {
            (Response::ParseKeymap { keymap: Keymap(0) }, Err(CphError::KeymapParsingFailed))
        }
    }

    /// Point a seat at a parsed keymap; the invalid handle selects the
    /// default keymap.
    pub fn handle_set_keymap(&mut self, seat: Seat, keymap: Keymap) -> (r: Result<(), CphError>)
        ensures
            final(self).next_id == old(self).next_id,
            final(self).keymaps == old(self).keymaps,
            final(self).devices == old(self).devices,
            r is Err ==> *final(self) == *old(self),
            !has_key(cfg_seat_keys(old(self).seats@), seat.0) ==> r == Err::<(), CphError>(
                CphError::SeatDoesNotExist(seat),
            ),
            has_key(cfg_seat_keys(old(self).seats@), seat.0) && keymap.0 != 0 && !has_key(
                old(self).keymaps@,
                keymap.0,
            ) ==> r == Err::<(), CphError>(CphError::KeymapDoesNotExist(keymap)),
            has_key(cfg_seat_keys(old(self).seats@), seat.0) && (keymap.0 == 0 || has_key(
                old(self).keymaps@,
                keymap.0,
            )) ==> {
                &&& r is Ok
                &&& final(self).seats@.len() == old(self).seats@.len()
                &&& final(self).seats@[key_index(cfg_seat_keys(old(self).seats@), seat.0)].keymap
                    == (if keymap.0 == 0 {
                    Keymap(0)
                } else {
                    keymap
                })
                &&& forall|i: int|
                    0 <= i < old(self).seats@.len() && i != key_index(
                        cfg_seat_keys(old(self).seats@),
                        seat.0,
                    ) ==> final(self).seats@[i] == old(self).seats@[i]
            },
    {
        let si = self.get_seat(seat)?;
        if keymap.is_invalid() {
            self.seats[si].keymap = Keymap(0);
        } else {
            self.get_keymap(keymap)?;
            self.seats[si].keymap = keymap;
        }
        Ok(())
    }

    /// Answer with a seat's repeat rate.
    pub fn handle_get_repeat_rate(&self, seat: Seat) -> (r: Result<Response, CphError>)
        ensures
            match r {
                Ok(resp) => {
                    let i = key_index(cfg_seat_keys(self.seats@), seat.0);
                    &&& has_key(cfg_seat_keys(self.seats@), seat.0)
                    &&& resp == (Response::GetRepeatRate {
                        rate: self.seats@[i].repeat_rate,
                        delay: self.seats@[i].repeat_delay,
                    })
                },
                Err(e) => !has_key(cfg_seat_keys(self.seats@), seat.0) && e == (
                CphError::SeatDoesNotExist(seat)),
            },
    {
        let si = self.get_seat(seat)?;
        Ok(
            Response::GetRepeatRate {
                rate: self.seats[si].repeat_rate,
                delay: self.seats[si].repeat_delay,
            },
        )
    }

    /// Set a seat's repeat rate; negative values are refused.
    pub fn handle_set_repeat_rate(&mut self, seat: Seat, rate: i32, delay: i32) -> (r: Result<
        (),
        CphError,
    >)
        ensures
            final(self).next_id == old(self).next_id,
            final(self).keymaps == old(self).keymaps,
            final(self).devices == old(self).devices,
            r is Err ==> *final(self) == *old(self),
            !has_key(cfg_seat_keys(old(self).seats@), seat.0) ==> r == Err::<(), CphError>(
                CphError::SeatDoesNotExist(seat),
            ),
            has_key(cfg_seat_keys(old(self).seats@), seat.0) && rate < 0 ==> r == Err::<
                (),
                CphError,
            >(CphError::NegativeRate),
            has_key(cfg_seat_keys(old(self).seats@), seat.0) && rate >= 0 && delay < 0 ==> r
                == Err::<(), CphError>(CphError::NegativeDelay),
            has_key(cfg_seat_keys(old(self).seats@), seat.0) && rate >= 0 && delay >= 0 ==> {
                let i = key_index(cfg_seat_keys(old(self).seats@), seat.0);
                &&& r is Ok
                &&& final(self).seats@.len() == old(self).seats@.len()
                &&& final(self).seats@[i].repeat_rate == rate
                &&& final(self).seats@[i].repeat_delay == delay
                &&& forall|j: int|
                    0 <= j < old(self).seats@.len() && j != i ==> final(self).seats@[j] == old(self).seats@[j]
            },
    {
        let si = self.get_seat(seat)?;
        if rate < 0 {
            return Err(CphError::NegativeRate);
        }
        if delay < 0 {
            return Err(CphError::NegativeDelay);
        }
        self.seats[si].repeat_rate = rate;
        self.seats[si].repeat_delay = delay;
        Ok(())
    }

    /// Attach a device to a seat, or detach it when the handle is the
    /// invalid seat (zero).
    pub fn handle_set_seat(&mut self, device: InputDevice, seat: Seat) -> (r: Result<(), CphError>)
        ensures
            final(self).next_id == old(self).next_id,
            final(self).keymaps == old(self).keymaps,
            final(self).seats == old(self).seats,
            r is Err ==> *final(self) == *old(self),
            seat.0 != 0 && !has_key(cfg_seat_keys(old(self).seats@), seat.0) ==> r == Err::<
                (),
                CphError,
            >(CphError::SeatDoesNotExist(seat)),
            (seat.0 == 0 || has_key(cfg_seat_keys(old(self).seats@), seat.0)) && !has_cfg_device(
                old(self).devices@,
                device,
            ) ==> r == Err::<(), CphError>(CphError::DeviceDoesNotExist(device)),
            (seat.0 == 0 || has_key(cfg_seat_keys(old(self).seats@), seat.0)) && has_cfg_device(
                old(self).devices@,
                device,
            ) ==> {
                let di = cfg_device_index(old(self).devices@, device);
                &&& r is Ok
                &&& final(self).devices@.len() == old(self).devices@.len()
                &&& final(self).devices@[di].device == old(self).devices@[di].device
                &&& final(self).devices@[di].seat == (if seat.0 == 0 {
                    None
                } else {
                    Some(seat)
                })
                &&& forall|j: int|
                    0 <= j < old(self).devices@.len() && j != di ==> final(self).devices@[j] == old(
                        self,
                    ).devices@[j]
            },
    {
        let target: Option<Seat> = if seat.0 == 0 {
            None
        } else {
            self.get_seat(seat)?;
            Some(seat)
        };
        let di = self.get_device_handler_data(device)?;
        self.devices[di].seat = target;
        Ok(())
    }

    /// Answer with a seat's split axis.
    pub fn handle_get_split(&self, seat: Seat) -> (r: Result<Response, CphError>)
        ensures
            match r {
                Ok(resp) => {
                    let i = key_index(cfg_seat_keys(self.seats@), seat.0);
                    &&& has_key(cfg_seat_keys(self.seats@), seat.0)
                    &&& resp == (Response::GetSplit { axis: self.seats@[i].split })
                },
                Err(e) => !has_key(cfg_seat_keys(self.seats@), seat.0) && e == (
                CphError::SeatDoesNotExist(seat)),
            },
    {
        let si = self.get_seat(seat)?;
        Ok(Response::GetSplit { axis: self.seats[si].split })
    }

    /// Set a seat's split axis.
    pub fn handle_set_split(&mut self, seat: Seat, axis: Axis) -> (r: Result<(), CphError>)
        ensures
            final(self).next_id == old(self).next_id,
            final(self).keymaps == old(self).keymaps,
            final(self).devices == old(self).devices,
            r is Err ==> *final(self) == *old(self),
            !has_key(cfg_seat_keys(old(self).seats@), seat.0) ==> r == Err::<(), CphError>(
                CphError::SeatDoesNotExist(seat),
            ),
            has_key(cfg_seat_keys(old(self).seats@), seat.0) ==> {
                let i = key_index(cfg_seat_keys(old(self).seats@), seat.0);
                &&& r is Ok
                &&& final(self).seats@.len() == old(self).seats@.len()
                &&& final(self).seats@[i].split == axis
                &&& forall|j: int|
                    0 <= j < old(self).seats@.len() && j != i ==> final(self).seats@[j] == old(self).seats@[j]
            },
    {
        let si = self.get_seat(seat)?;
        self.seats[si].split = axis;
        Ok(())
    }

    /// Record one keyboard shortcut on a seat; the modifier word and the
    /// key symbol are packed into one entry.
    pub fn handle_add_shortcut(&mut self, seat: Seat, mods: u32, sym: u32) -> (r: Result<
        (),
        CphError,
    >)
        ensures
            final(self).next_id == old(self).next_id,
            final(self).keymaps == old(self).keymaps,
            final(self).devices == old(self).devices,
            r is Err ==> *final(self) == *old(self),
            !has_key(cfg_seat_keys(old(self).seats@), seat.0) ==> r == Err::<(), CphError>(
                CphError::SeatDoesNotExist(seat),
            ),
            has_key(cfg_seat_keys(old(self).seats@), seat.0) ==> {
                let i = key_index(cfg_seat_keys(old(self).seats@), seat.0);
                &&& r is Ok
                &&& final(self).seats@.len() == old(self).seats@.len()
                &&& final(self).seats@[i].shortcuts@ =~= old(self).seats@[i].shortcuts@.push(
                    ((mods as u64) * 0x1_0000_0000 + (sym as u64)) as u64,
                )
                &&& forall|j: int|
                    0 <= j < old(self).seats@.len() && j != i ==> final(self).seats@[j] == old(self).seats@[j]
            },
    {
        let si = self.get_seat(seat)?;
        let packed = (mods as u64) * 0x1_0000_0000 + (sym as u64);
        self.seats[si].shortcuts.push(packed);
        Ok(())
    }

    /// Answer with the handles of all devices, keyboards then mice as the
    /// table orders them.
    #[verifier::loop_isolation(false)]
    pub fn handle_get_input_devices(&self) -> (r: Response)
        ensures
            r matches Response::GetInputDevices { devices } && devices@ =~= self.devices@.map_values(
                |d: CfgDevice| d.device,
            ),
    {
        let mut res: Vec<InputDevice> = Vec::new();
        let mut i: usize = 0;
        while i < self.devices.len()
            invariant
                0 <= i <= self.devices@.len(),
                res@ =~= self.devices@.map_values(|d: CfgDevice| d.device).take(i as int),
            decreases self.devices@.len() - i,
        {
            res.push(self.devices[i].device);
            proof {
                assert(res@ =~= self.devices@.map_values(|d: CfgDevice| d.device).take(
                    i as int + 1,
                ));
            }
            i = i + 1;
        }
        proof {
            assert(self.devices@.map_values(|d: CfgDevice| d.device).take(
                self.devices@.len() as int,
            ) =~= self.devices@.map_values(|d: CfgDevice| d.device));
        }
        Response::GetInputDevices { devices: res }
    }

    /// Answer with the handles of all seats, in table order.
    #[verifier::loop_isolation(false)]
    pub fn handle_get_seats(&self) -> (r: Response)
        ensures
            r matches Response::GetSeats { seats } && seats@ =~= self.seats@.map_values(
                |s: CfgSeat| Seat(s.id),
            ),
    {
        let mut res: Vec<Seat> = Vec::new();
        let mut i: usize = 0;
        while i < self.seats.len()
            invariant
                0 <= i <= self.seats@.len(),
                res@ =~= self.seats@.map_values(|s: CfgSeat| Seat(s.id)).take(i as int),
            decreases self.seats@.len() - i,
        {
            res.push(Seat(self.seats[i].id));
            proof {
                assert(res@ =~= self.seats@.map_values(|s: CfgSeat| Seat(s.id)).take(i as int + 1));
            }
            i = i + 1;
        }
        proof {
            assert(self.seats@.map_values(|s: CfgSeat| Seat(s.id)).take(self.seats@.len() as int)
                =~= self.seats@.map_values(|s: CfgSeat| Seat(s.id)));
        }
        Response::GetSeats { seats: res }
    }

    /// A run request needs the forker; starting the program happens at the
    /// program's edge.
    pub fn handle_run(&self) -> (r: Result<(), CphError>)
        ensures
            r == if self.have_forker {
                Ok::<(), CphError>(())
            } else {
                Err::<(), CphError>(CphError::NoForker)
            },
    {
        if self.have_forker {
            Ok(())
        } else {
            Err(CphError::NoForker)
        }
    }

    /// Dispatch one decoded request. Every request is answered or applied
    /// exactly as its handler says; the move and removal requests are
    /// accepted on the wire but intentionally left unimplemented. The
    /// responses owed to the client come back even when the request then
    /// fails (a refused keymap still gets its answer); the error is
    /// reported alongside for logging, never fatal. Whether a keymap text
    /// parses is the keyboard library's verdict, handed in from the edge.
    #[verifier::rlimit(100)]
    pub fn handle_request_(&mut self, msg: ClientMessage, keymap_parsed: bool) -> (r: (
        Vec<Response>,
        Result<(), CphError>,
    ))
        requires
            old(self).wf(),
            old(self).next_id < u64::MAX,
        ensures
            final(self).wf(),
            r.1 is Err ==> *final(self) == *old(self),
            msg matches ClientMessage::Log { .. } ==> r.1 is Ok && r.0@ =~= Seq::<
                Response,
            >::empty() && *final(self) == *old(self),
            msg matches ClientMessage::CreateSeat { name } ==> {
                &&& r.1 is Ok
                &&& r.0@ =~= seq![Response::CreateSeat { seat: Seat(old(self).next_id) }]
                &&& final(self).seats@.len() == old(self).seats@.len() + 1
                &&& final(self).seats@.take(old(self).seats@.len() as int) =~= old(self).seats@
                &&& final(self).seats@.last().id == old(self).next_id
                &&& final(self).seats@.last().name@ == name@
                &&& final(self).next_id == old(self).next_id + 1
                &&& final(self).keymaps == old(self).keymaps
                &&& final(self).devices == old(self).devices
            },
            msg matches ClientMessage::ParseKeymap { .. } && keymap_parsed ==> {
                &&& r.1 is Ok
                &&& r.0@ =~= seq![Response::ParseKeymap { keymap: Keymap(old(self).next_id) }]
                &&& final(self).keymaps@ =~= old(self).keymaps@.push(old(self).next_id)
                &&& final(self).next_id == old(self).next_id + 1
                &&& final(self).seats == old(self).seats
                &&& final(self).devices == old(self).devices
            },
            msg matches ClientMessage::ParseKeymap { .. } && !keymap_parsed ==> {
                &&& r.1 == Err::<(), CphError>(CphError::KeymapParsingFailed)
                &&& r.0@ =~= seq![Response::ParseKeymap { keymap: Keymap(0) }]
                &&& *final(self) == *old(self)
            },
            msg matches ClientMessage::SeatSetKeymap { seat, keymap } ==> {
                &&& r.0@ =~= Seq::<Response>::empty()
                &&& (!has_key(cfg_seat_keys(old(self).seats@), seat.0) ==> r.1 == Err::<
                    (),
                    CphError,
                >(CphError::SeatDoesNotExist(seat)))
                &&& (has_key(cfg_seat_keys(old(self).seats@), seat.0) && keymap.0 != 0 && !has_key(
                    old(self).keymaps@,
                    keymap.0,
                ) ==> r.1 == Err::<(), CphError>(CphError::KeymapDoesNotExist(keymap)))
                &&& (has_key(cfg_seat_keys(old(self).seats@), seat.0) && (keymap.0 == 0 || has_key(
                    old(self).keymaps@,
                    keymap.0,
                )) ==> {
                    &&& r.1 is Ok
                    &&& final(self).seats@.len() == old(self).seats@.len()
                    &&& final(self).seats@[key_index(
                        cfg_seat_keys(old(self).seats@),
                        seat.0,
                    )].keymap == (if keymap.0 == 0 {
                        Keymap(0)
                    } else {
                        keymap
                    })
                    &&& final(self).keymaps == old(self).keymaps
                    &&& final(self).devices == old(self).devices
                    &&& final(self).next_id == old(self).next_id
                })
            },
            msg matches ClientMessage::SeatGetRepeatRate { seat } ==> {
                &&& *final(self) == *old(self)
                &&& (has_key(cfg_seat_keys(old(self).seats@), seat.0) ==> {
                    let i = key_index(cfg_seat_keys(old(self).seats@), seat.0);
                    &&& r.1 is Ok
                    &&& r.0@ =~= seq![
                        Response::GetRepeatRate {
                            rate: old(self).seats@[i].repeat_rate,
                            delay: old(self).seats@[i].repeat_delay,
                        },
                    ]
                })
                &&& (!has_key(cfg_seat_keys(old(self).seats@), seat.0) ==> r.1 == Err::<
                    (),
                    CphError,
                >(CphError::SeatDoesNotExist(seat)))
            },
            msg matches ClientMessage::SeatSetRepeatRate { seat, rate, delay } ==> {
                &&& r.0@ =~= Seq::<Response>::empty()
                &&& (!has_key(cfg_seat_keys(old(self).seats@), seat.0) ==> r.1 == Err::<
                    (),
                    CphError,
                >(CphError::SeatDoesNotExist(seat)))
                &&& (has_key(cfg_seat_keys(old(self).seats@), seat.0) && rate < 0 ==> r.1 == Err::<
                    (),
                    CphError,
                >(CphError::NegativeRate))
                &&& (has_key(cfg_seat_keys(old(self).seats@), seat.0) && rate >= 0 && delay < 0
                    ==> r.1 == Err::<(), CphError>(CphError::NegativeDelay))
                &&& (has_key(cfg_seat_keys(old(self).seats@), seat.0) && rate >= 0 && delay >= 0
                    ==> {
                    let i = key_index(cfg_seat_keys(old(self).seats@), seat.0);
                    &&& r.1 is Ok
                    &&& final(self).seats@.len() == old(self).seats@.len()
                    &&& final(self).seats@[i].repeat_rate == rate
                    &&& final(self).seats@[i].repeat_delay == delay
                    &&& forall|j: int|
                        0 <= j < old(self).seats@.len() && j != i ==> final(self).seats@[j] == old(
                            self,
                        ).seats@[j]
                })
            },
            msg matches ClientMessage::SetSeat { device, seat } ==> {
                &&& r.0@ =~= Seq::<Response>::empty()
                &&& final(self).seats == old(self).seats
                &&& (seat.0 != 0 && !has_key(cfg_seat_keys(old(self).seats@), seat.0) ==> r.1
                    == Err::<(), CphError>(CphError::SeatDoesNotExist(seat)))
                &&& ((seat.0 == 0 || has_key(cfg_seat_keys(old(self).seats@), seat.0))
                    && !has_cfg_device(old(self).devices@, device) ==> r.1 == Err::<(), CphError>(
                    CphError::DeviceDoesNotExist(device),
                ))
                &&& ((seat.0 == 0 || has_key(cfg_seat_keys(old(self).seats@), seat.0))
                    && has_cfg_device(old(self).devices@, device) ==> {
                    let di = cfg_device_index(old(self).devices@, device);
                    &&& r.1 is Ok
                    &&& final(self).devices@.len() == old(self).devices@.len()
                    &&& final(self).devices@[di].seat == (if seat.0 == 0 {
                        None
                    } else {
                        Some(seat)
                    })
                    &&& forall|j: int|
                        0 <= j < old(self).devices@.len() && j != di ==> final(self).devices@[j]
                            == old(self).devices@[j]
                })
            },
            msg matches ClientMessage::GetSplit { seat } ==> {
                &&& *final(self) == *old(self)
                &&& (has_key(cfg_seat_keys(old(self).seats@), seat.0) ==> {
                    let i = key_index(cfg_seat_keys(old(self).seats@), seat.0);
                    &&& r.1 is Ok
                    &&& r.0@ =~= seq![Response::GetSplit { axis: old(self).seats@[i].split }]
                })
                &&& (!has_key(cfg_seat_keys(old(self).seats@), seat.0) ==> r.1 == Err::<
                    (),
                    CphError,
                >(CphError::SeatDoesNotExist(seat)))
            },
            msg matches ClientMessage::SetSplit { seat, axis } ==> {
                &&& r.0@ =~= Seq::<Response>::empty()
                &&& (!has_key(cfg_seat_keys(old(self).seats@), seat.0) ==> r.1 == Err::<
                    (),
                    CphError,
                >(CphError::SeatDoesNotExist(seat)))
                &&& (has_key(cfg_seat_keys(old(self).seats@), seat.0) ==> {
                    let i = key_index(cfg_seat_keys(old(self).seats@), seat.0);
                    &&& r.1 is Ok
                    &&& final(self).seats@.len() == old(self).seats@.len()
                    &&& final(self).seats@[i].split == axis
                    &&& forall|j: int|
                        0 <= j < old(self).seats@.len() && j != i ==> final(self).seats@[j] == old(
                            self,
                        ).seats@[j]
                })
            },
            msg matches ClientMessage::AddShortcut { seat, mods, sym } ==> {
                &&& r.0@ =~= Seq::<Response>::empty()
                &&& (!has_key(cfg_seat_keys(old(self).seats@), seat.0) ==> r.1 == Err::<
                    (),
                    CphError,
                >(CphError::SeatDoesNotExist(seat)))
                &&& (has_key(cfg_seat_keys(old(self).seats@), seat.0) ==> {
                    let i = key_index(cfg_seat_keys(old(self).seats@), seat.0);
                    &&& r.1 is Ok
                    &&& final(self).seats@.len() == old(self).seats@.len()
                    &&& final(self).seats@[i].shortcuts@ =~= old(self).seats@[i].shortcuts@.push(
                        ((mods as u64) * 0x1_0000_0000 + (sym as u64)) as u64,
                    )
                    &&& forall|j: int|
                        0 <= j < old(self).seats@.len() && j != i ==> final(self).seats@[j] == old(
                            self,
                        ).seats@[j]
                })
            },
            msg matches ClientMessage::RemoveShortcut { .. } ==> r.1 is Ok && r.0@ =~= Seq::<
                Response,
            >::empty() && *final(self) == *old(self),
            msg matches ClientMessage::Focus { seat, .. } ==> {
                &&& r.0@ =~= Seq::<Response>::empty()
                &&& *final(self) == *old(self)
                &&& (r.1 is Ok <==> has_key(cfg_seat_keys(old(self).seats@), seat.0))
                &&& (r.1 is Err ==> r.1 == Err::<(), CphError>(CphError::SeatDoesNotExist(seat)))
            },
            msg matches ClientMessage::Move { .. } ==> r.1 is Ok && r.0@ =~= Seq::<
                Response,
            >::empty() && *final(self) == *old(self),
            msg matches ClientMessage::GetInputDevices ==> {
                &&& r.1 is Ok
                &&& *final(self) == *old(self)
                &&& r.0@.len() == 1
                &&& r.0@[0] matches Response::GetInputDevices { devices } && devices@ =~= old(
                    self,
                ).devices@.map_values(|d: CfgDevice| d.device)
            },
            msg matches ClientMessage::GetSeats ==> {
                &&& r.1 is Ok
                &&& *final(self) == *old(self)
                &&& r.0@.len() == 1
                &&& r.0@[0] matches Response::GetSeats { seats } && seats@ =~= old(
                    self,
                ).seats@.map_values(|s: CfgSeat| Seat(s.id))
            },
            msg matches ClientMessage::RemoveSeat { .. } ==> r.1 is Ok && r.0@ =~= Seq::<
                Response,
            >::empty() && *final(self) == *old(self),
            msg matches ClientMessage::Run { .. } ==> {
                &&& r.0@ =~= Seq::<Response>::empty()
                &&& *final(self) == *old(self)
                &&& r.1 == (if old(self).have_forker {
                    Ok::<(), CphError>(())
                } else {
                    Err::<(), CphError>(CphError::NoForker)
                })
            },
    {
        let mut responses: Vec<Response> = Vec::new();
        let res: Result<(), CphError> = match msg {
            ClientMessage::Log { level, msg, file, line } => {
                self.handle_log_request(level, &msg, &file, line)
            },
            ClientMessage::CreateSeat { name } => {
                let resp = self.handle_create_seat(&name);
                responses.push(resp);
                Ok(())
            },
            ClientMessage::ParseKeymap { keymap } => {
                let _ = keymap;
                let (resp, res) = self.handle_parse_keymap(keymap_parsed);
                responses.push(resp);
                res
            },
            ClientMessage::SeatSetKeymap { seat, keymap } => self.handle_set_keymap(seat, keymap),
            ClientMessage::SeatGetRepeatRate { seat } => {
                match self.handle_get_repeat_rate(seat) {
                    Ok(resp) => {
                        responses.push(resp);
                        Ok(())
                    },
                    Err(e) => Err(e),
                }
            },
            ClientMessage::SeatSetRepeatRate { seat, rate, delay } => {
                self.handle_set_repeat_rate(seat, rate, delay)
            },
            ClientMessage::SetSeat { device, seat } => self.handle_set_seat(device, seat),
            ClientMessage::GetSplit { seat } => {
                match self.handle_get_split(seat) {
                    Ok(resp) => {
                        responses.push(resp);
                        Ok(())
                    },
                    Err(e) => Err(e),
                }
            },
            ClientMessage::SetSplit { seat, axis } => self.handle_set_split(seat, axis),
            ClientMessage::AddShortcut { seat, mods, sym } => {
                self.handle_add_shortcut(seat, mods, sym)
            },
            ClientMessage::RemoveShortcut { .. } => Ok(()),
            ClientMessage::Focus { seat, direction } => {
                let _ = direction;
                match self.get_seat(seat) {
                    Ok(_) => Ok(()),
                    Err(e) => Err(e),
                }
            },
            ClientMessage::Move { .. } => Ok(()),
            ClientMessage::GetInputDevices => {
                let resp = self.handle_get_input_devices();
                responses.push(resp);
                Ok(())
            },
            ClientMessage::GetSeats => {
                let resp = self.handle_get_seats();
                responses.push(resp);
                Ok(())
            },
            ClientMessage::RemoveSeat { .. } => Ok(()),
            ClientMessage::Run { prog, args, env } => {
                let _ = prog;
                let _ = args;
                let _ = env;
                self.handle_run()
            },
        };
        (responses, res)
    }
}

} // verus!
