//! Identifier newtypes shared by the acceptor and the selection engine.
//!
//! Every object the engine tracks is referred to by a stable numeric id:
//! clients, seats, devices, sources and offers. The ids are opaque tokens;
//! the engine never computes with them beyond equality tests.

use vstd::prelude::*;

verus! {

/// Identity of a connected client.
#[derive(Clone, Copy, PartialEq, Eq, Structural, Debug)]
pub struct ClientId(pub u64);

/// Identity of an input seat (focus/arbitration domain).
#[derive(Clone, Copy, PartialEq, Eq, Structural, Debug)]
pub struct SeatId(pub u64);

/// Identity of a per-(client, seat) selection device.
#[derive(Clone, Copy, PartialEq, Eq, Structural, Debug)]
pub struct DeviceId(pub u64);

/// Identity of a data source (a client's offer to provide data).
#[derive(Clone, Copy, PartialEq, Eq, Structural, Debug)]
pub struct SourceId(pub u64);

/// Identity of a per-recipient offer handle onto a source.
#[derive(Clone, Copy, PartialEq, Eq, Structural, Debug)]
pub struct OfferId(pub u64);

} // verus!
