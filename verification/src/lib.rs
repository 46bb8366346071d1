//! Core state machines of a display-server session layer: listening-socket
//! allocation, connection acceptance, and the inter-client data-transfer
//! (selection) engine shared by the clipboard and primary-selection
//! protocols.

use vstd::prelude::*;

pub mod acceptor;
pub mod config_handler;
pub mod dbus;
pub mod framebuffer;
pub mod ids;
pub mod jay_input;
pub mod laws;
pub mod libinput_device;
pub mod rect;
pub mod selection;
pub mod xdg_popup;
pub mod zwp_primary_selection_device_v1;

verus! {

/// Width of the namespace the address allocator scans: candidate socket
/// names carry an index in `1..SOCKET_NAME_RANGE`.
pub const SOCKET_NAME_RANGE: u32 = 1000;

/// A socket index is in the allocator's namespace.
pub open spec fn valid_socket_index(i: u32) -> bool {
    1 <= i < SOCKET_NAME_RANGE
}

} // verus!
