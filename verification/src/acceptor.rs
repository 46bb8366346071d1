//! Listening-socket allocation and connection acceptance.
//!
//! The allocator scans a bounded namespace of socket names, guarding each
//! candidate with an advisory lock so two server instances never bind the
//! same name; the acceptor owns the bound socket and drains pending
//! connections on every readiness wake. The system calls themselves happen
//! outside this crate; what lives here is every decision the two make:
//! name and path construction, the path-length gate, the candidate scan,
//! the error taxonomy, and the accept-loop policy.

use vstd::prelude::*;

use crate::SOCKET_NAME_RANGE;

verus! {

/// Longest address (including its terminating zero byte) that fits the
/// address family's path field.
pub const SUN_PATH_MAX: usize = 108;

/// Backlog the listening socket is configured with.
pub const LISTEN_BACKLOG: i32 = 4096;

/// Why allocation, installation or dispatch failed. Variants that stem
/// from a failed system call carry its error number.
#[derive(Clone, PartialEq, Eq, Debug)]
pub enum AcceptorError {
    /// The runtime directory is not configured in the environment.
    XrdNotSet,
    /// The runtime directory is too long to form a socket address.
    XrdTooLong(String),
    /// The socket could not be created.
    SocketFailed(i32),
    /// An existing socket file could not be inspected.
    SocketStat(i32),
    /// The bound socket could not start listening.
    ListenFailed(i32),
    /// The lock file beside the socket could not be opened.
    OpenLockFile(i32),
    /// The advisory lock on the lock file could not be taken.
    LockLockFile(i32),
    /// The listening socket reported an error or hangup state.
    ErrorEvent,
    /// A pending connection could not be accepted.
    AcceptFailed(i32),
    /// A handler for one accepted connection could not be spawned.
    SpawnFailed(i32),
    /// The socket could not be bound to the candidate address.
    BindFailed(i32),
    /// Every name in the allocator's namespace is already taken.
    AddressesInUse,
    /// The reactor refused the registration.
    EventLoopError(i32),
}

impl AcceptorError {
    /// The description of this failure, as the operator's log reports it.
    pub open spec fn spec_message(self) -> Seq<char> {
        match self {
            AcceptorError::XrdNotSet => "XDG_RUNTIME_DIR is not set"@,
            AcceptorError::XrdTooLong(d) => "XDG_RUNTIME_DIR ("@ + d@
                + ") is too long to form a unix socket address"@,
            AcceptorError::SocketFailed(_) => "Could not create a wayland socket"@,
            AcceptorError::SocketStat(_) => "Could not stat the existing socket"@,
            AcceptorError::ListenFailed(_) => "Could not start listening for incoming connections"@,
            AcceptorError::OpenLockFile(_) => "Could not open the lock file"@,
            AcceptorError::LockLockFile(_) => "Could not lock the lock file"@,
            AcceptorError::ErrorEvent => "The wayland socket is in an error state"@,
            AcceptorError::AcceptFailed(_) => "Could not accept new connections"@,
            AcceptorError::SpawnFailed(_) => "Could not spawn an event handler for a new connection"@,
            AcceptorError::BindFailed(_) => "Could not bind the socket to an address"@,
            AcceptorError::AddressesInUse => "All wayland addresses in the range 0..1000 are already in use"@,
            AcceptorError::EventLoopError(_) => "The event loop caused an error"@,
        }
    }

    /// Render the failure for the operator's log.
    pub fn message(&self) -> (r: String)
        ensures
            r@ =~= self.spec_message(),
    {
        match self {
            AcceptorError::XrdNotSet => String::from_str("XDG_RUNTIME_DIR is not set"),
            AcceptorError::XrdTooLong(d) => {
                let mut s = String::from_str("XDG_RUNTIME_DIR (");
                s.append(d.as_str());
                s.append(") is too long to form a unix socket address");
                s
            },
            AcceptorError::SocketFailed(_) => String::from_str(
                "Could not create a wayland socket",
            ),
            AcceptorError::SocketStat(_) => String::from_str("Could not stat the existing socket"),
            AcceptorError::ListenFailed(_) => String::from_str(
                "Could not start listening for incoming connections",
            ),
            AcceptorError::OpenLockFile(_) => String::from_str("Could not open the lock file"),
            AcceptorError::LockLockFile(_) => String::from_str("Could not lock the lock file"),
            AcceptorError::ErrorEvent => String::from_str(
                "The wayland socket is in an error state",
            ),
            AcceptorError::AcceptFailed(_) => String::from_str("Could not accept new connections"),
            AcceptorError::SpawnFailed(_) => String::from_str(
                "Could not spawn an event handler for a new connection",
            ),
            AcceptorError::BindFailed(_) => String::from_str(
                "Could not bind the socket to an address",
            ),
            AcceptorError::AddressesInUse => String::from_str(
                "All wayland addresses in the range 0..1000 are already in use",
            ),
            AcceptorError::EventLoopError(_) => String::from_str(
                "The event loop caused an error",
            ),
        }
    }
}

/// The decimal digits of `n`, most significant first.
pub open spec fn decimal(n: u32) -> Seq<char>
    decreases n,
{
    if n < 10 {
        seq![digit_char(n)]
    } else {
        decimal(n / 10) + seq![digit_char(n % 10)]
    }
}

/// The character of one decimal digit.
pub open spec fn digit_char(d: u32) -> char {
    if d == 0 {
        '0'
    } else if d == 1 {
        '1'
    } else if d == 2 {
        '2'
    } else if d == 3 {
        '3'
    } else if d == 4 {
        '4'
    } else if d == 5 {
        '5'
    } else if d == 6 {
        '6'
    } else if d == 7 {
        '7'
    } else if d == 8 {
        '8'
    } else {
        '9'
    }
}

fn digit_str(d: u32) -> (r: &'static str)
    requires
        d < 10,
    ensures
        r@ =~= seq![digit_char(d)],
{
    proof {
        reveal_strlit("0");
        reveal_strlit("1");
        reveal_strlit("2");
        reveal_strlit("3");
        reveal_strlit("4");
        reveal_strlit("5");
        reveal_strlit("6");
        reveal_strlit("7");
        reveal_strlit("8");
        reveal_strlit("9");
    }
    if d == 0 {
        "0"
    } else if d == 1 {
        "1"
    } else if d == 2 {
        "2"
    } else if d == 3 {
        "3"
    } else if d == 4 {
        "4"
    } else if d == 5 {
        "5"
    } else if d == 6 {
        "6"
    } else if d == 7 {
        "7"
    } else if d == 8 {
        "8"
    } else {
        "9"
    }
}

/// Render `n` in decimal.
pub fn format_decimal(n: u32) -> (r: String)
    ensures
        r@ =~= decimal(n),
    decreases n,
{
    if n < 10 {
        String::from_str(digit_str(n))
    } else {
        let mut s = format_decimal(n / 10);
        s.append(digit_str(n % 10));
        s
    }
}

/// The advertised name of the socket with namespace index `i`.
pub open spec fn socket_name_spec(i: u32) -> Seq<char> {
    "wayland-"@ + decimal(i)
}

/// Build the advertised socket name for index `i`.
pub fn socket_name(i: u32) -> (r: String)
    ensures
        r@ =~= socket_name_spec(i),
{
    let mut s = String::from_str("wayland-");
    s.append(format_decimal(i).as_str());
    s
}

/// The filesystem path of a socket name under the runtime directory.
pub open spec fn socket_path_spec(xrd: Seq<char>, name: Seq<char>) -> Seq<char> {
    xrd + "/"@ + name
}

/// The sibling lock-file path of a socket path.
pub open spec fn lock_path_spec(path: Seq<char>) -> Seq<char> {
    path + ".lock"@
}

/// A socket path fits the address family's path field, terminator included:
/// its length in encoded bytes stays under the field's size.
pub open spec fn fits_sun_path(path: Seq<char>) -> bool {
    (vstd::utf8::encode_utf8(path).len() as usize) < SUN_PATH_MAX
}

/// The three paths of one candidate: the advertised name, the socket path
/// and the lock-file path beside it.
pub struct BindPlan {
    pub name: String,
    pub path: String,
    pub lock_path: String,
}

/// Work out the paths of candidate `id` under the runtime directory `xrd`,
/// refusing a directory too long for a socket address.
pub fn bind_plan(xrd: &str, id: u32) -> (r: Result<BindPlan, AcceptorError>)
    ensures
        match r {
            Ok(plan) => {
                &&& plan.name@ =~= socket_name_spec(id)
                &&& plan.path@ =~= socket_path_spec(xrd@, socket_name_spec(id))
                &&& plan.lock_path@ =~= lock_path_spec(plan.path@)
                &&& fits_sun_path(plan.path@)
            },
            Err(e) => {
                &&& e matches AcceptorError::XrdTooLong(x) && x@ == xrd@
                &&& !fits_sun_path(socket_path_spec(xrd@, socket_name_spec(id)))
            },
        },
{
    let name = socket_name(id);
    let mut path = String::from_str(xrd);
    path.append("/");
    path.append(name.as_str());
    if path.as_str().len() >= SUN_PATH_MAX {
        return Err(AcceptorError::XrdTooLong(String::from_str(xrd)));
    }
    let mut lock_path = String::from_str(path.as_str());
    lock_path.append(".lock");
    Ok(BindPlan { name, path, lock_path })
}

/// What a stat of an existing socket file showed.
#[derive(Clone, Copy, PartialEq, Eq, Structural, Debug)]
pub enum FileStat {
    /// A file already sits at the socket path.
    Exists,
    /// Nothing sits at the socket path.
    Missing,
    /// The stat call itself failed with this error number.
    StatFailed(i32),
}

/// Decide what to do about a file already at the candidate's socket path:
/// a leftover from a crashed previous instance is unlinked (we hold the
/// lock, so no live instance owns it); any stat failure other than "does
/// not exist" abandons the candidate.
pub fn stat_decision(stat: FileStat) -> (r: Result<bool, AcceptorError>)
    ensures
        r == match stat {
            FileStat::Exists => Ok::<bool, AcceptorError>(true),
            FileStat::Missing => Ok::<bool, AcceptorError>(false),
            FileStat::StatFailed(e) => Err::<bool, AcceptorError>(AcceptorError::SocketStat(e)),
        },
{
    match stat {
        FileStat::Exists => Ok(true),
        FileStat::Missing => Ok(false),
        FileStat::StatFailed(e) => Err(AcceptorError::SocketStat(e)),
    }
}

/// Scans the socket-name namespace in order; each candidate is tried once.
pub struct AddressAllocator {
    pub next: u32,
}

impl AddressAllocator {
    /// Start the scan at the first namespace index.
    pub fn new() -> (r: AddressAllocator)
        ensures
            r.next == 1,
    {
        AddressAllocator { next: 1 }
    }

    /// The next index to try. Once the namespace is exhausted every further
    /// call reports `AddressesInUse`.
    pub fn next_candidate(&mut self) -> (r: Result<u32, AcceptorError>)
        ensures
            old(self).next < SOCKET_NAME_RANGE ==> {
                &&& r == Ok::<u32, AcceptorError>(old(self).next)
                &&& final(self).next == old(self).next + 1
            },
            old(self).next >= 1 ==> (r matches Ok(i) ==> crate::valid_socket_index(i)),
            old(self).next >= SOCKET_NAME_RANGE ==> {
                &&& r == Err::<u32, AcceptorError>(AcceptorError::AddressesInUse)
                &&& *final(self) == *old(self)
            },
    {
        if self.next < SOCKET_NAME_RANGE {
            let i = self.next;
            self.next = self.next + 1;
            Ok(i)
        } else {
            Err(AcceptorError::AddressesInUse)
        }
    }
}

/// The readiness bits a dispatch wake carries.
#[derive(Clone, Copy, PartialEq, Eq, Structural, Debug)]
pub struct ReadyEvents {
    pub readable: bool,
    pub error: bool,
    pub hangup: bool,
}

/// One observation of the accept loop.
#[derive(Clone, Copy, PartialEq, Eq, Structural, Debug)]
pub enum AcceptEvent {
    /// A pending connection was accepted.
    Accepted,
    /// No connection is pending; the listen queue is drained.
    QueueDrained,
    /// The accept call failed with this error number.
    AcceptFailed(i32),
    /// The handler for one accepted connection could not be spawned.
    SpawnFailed(i32),
}

/// What the accept loop does next.
#[derive(Clone, PartialEq, Eq, Debug)]
pub enum AcceptDecision {
    /// Hand the accepted connection to the client registry under a fresh
    /// client id.
    Spawn,
    /// Keep draining the queue.
    Continue,
    /// The queue is drained; wait for the next wake.
    Done,
    /// Tear the acceptor down with this error.
    Fatal(AcceptorError),
}

/// The accept-loop policy: an accept failure is fatal for the whole
/// acceptor, but a failed spawn is a per-client fault — it is reported and
/// the loop goes on accepting.
pub open spec fn accept_step_spec(ev: AcceptEvent) -> AcceptDecision {
    match ev {
        AcceptEvent::Accepted => AcceptDecision::Spawn,
        AcceptEvent::QueueDrained => AcceptDecision::Done,
        AcceptEvent::AcceptFailed(e) => AcceptDecision::Fatal(AcceptorError::AcceptFailed(e)),
        AcceptEvent::SpawnFailed(_) => AcceptDecision::Continue,
    }
}

/// The lifecycle of the acceptor.
#[derive(Clone, Copy, PartialEq, Eq, Structural, Debug)]
pub enum AcceptorPhase {
    /// Not yet registered with the reactor.
    Unregistered,
    /// Registered and draining connections on every wake.
    Listening,
    /// Deregistered; the socket and lock files are due for unlinking.
    Removed,
}

/// The acceptor's state machine. The socket itself and the reactor are
/// outside collaborators; this tracks the phase and owns the dispatch
/// decisions.
pub struct Acceptor {
    pub phase: AcceptorPhase,
    pub name: String,
}

impl Acceptor {
    /// A freshly installed acceptor: socket bound and listening, reactor
    /// registration done, advertising `name`.
    pub fn installed(name: String) -> (r: Acceptor)
        ensures
            r.phase == AcceptorPhase::Listening,
            r.name@ == name@,
    {
        Acceptor { phase: AcceptorPhase::Listening, name }
    }

    /// Every dispatch wake tests the socket's state first: an error or
    /// hangup state on the listening socket is fatal.
    pub fn dispatch_status(&self, ev: ReadyEvents) -> (r: Result<(), AcceptorError>)
        requires
            self.phase == AcceptorPhase::Listening,
        ensures
            r == if ev.error || ev.hangup {
                Err::<(), AcceptorError>(AcceptorError::ErrorEvent)
            } else {
                Ok::<(), AcceptorError>(())
            },
    {
        if ev.error || ev.hangup {
            Err(AcceptorError::ErrorEvent)
        } else {
            Ok(())
        }
    }

    /// One step of the accept loop.
    pub fn accept_step(&self, ev: AcceptEvent) -> (r: AcceptDecision)
        requires
            self.phase == AcceptorPhase::Listening,
        ensures
            r == accept_step_spec(ev),
    {
        match ev {
            AcceptEvent::Accepted => AcceptDecision::Spawn,
            AcceptEvent::QueueDrained => AcceptDecision::Done,
            AcceptEvent::AcceptFailed(e) => AcceptDecision::Fatal(AcceptorError::AcceptFailed(e)),
            AcceptEvent::SpawnFailed(_) => AcceptDecision::Continue,
        }
    }

    /// Teardown always deregisters from the reactor; afterwards the socket
    /// and lock files are unlinked. Idempotent.
    pub fn teardown(&mut self)
        ensures
            final(self).phase == AcceptorPhase::Removed,
            final(self).name@ == old(self).name@,
    {
        self.phase = AcceptorPhase::Removed;
    }
}

} // verus!
