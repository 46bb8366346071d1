//! Model of the input-library device handles: the slot bookkeeping the
//! compositor keeps on each device through the library's per-device user
//! data. The library itself is an outside collaborator driven from the
//! program's edge; what is verified here is the slot arithmetic: slots are
//! stored shifted by one so that zero can mean "no slot".

use vstd::prelude::*;

verus! {

/// A borrowed handle on one input device, carrying the user-data word the
/// compositor stores its slot assignment in.
pub struct LibInputDevice {
    pub user_data: usize,
}

/// A device registered with the input library for the compositor's
/// lifetime; dropping it unregisters the device.
pub struct RegisteredDevice {
    pub dev: LibInputDevice,
}

impl LibInputDevice {
    /// Assign the device to a slot. Slot `n` is stored as `n + 1`, keeping
    /// zero free to mean "unassigned".
    pub fn set_slot(&mut self, slot: usize)
        requires
            slot < usize::MAX,
        ensures
            final(self).user_data == slot + 1,
    {
        self.set_slot_(slot + 1)
    }

    /// Clear the device's slot assignment.
    pub fn unset_slot(&mut self)
        ensures
            final(self).user_data == 0,
    {
        self.set_slot_(0)
    }

    fn set_slot_(&mut self, slot: usize)
        ensures
            final(self).user_data == slot,
    {
        self.user_data = slot;
    }
}

impl RegisteredDevice {
    /// The borrowed device handle of this registration.
    pub fn device(&self) -> (r: LibInputDevice)
        ensures
            r.user_data == self.dev.user_data,
    {
        LibInputDevice { user_data: self.dev.user_data }
    }
}

} // verus!
