//! Laws of the selection engine that relate several operations, stated and
//! proved over the same spec functions the operations' contracts use.

use vstd::prelude::*;

use crate::ids::{ClientId, DeviceId, OfferId, SeatId, SourceId};
use crate::selection::{
    broadcast_notifs, clear_notifs, device_notifs, has_key, key_index, lemma_key_index,
    offer_keys, seat_keys, source_keys, takes_offer, Device, Notification, SelectionEngine,
};

verus! {

/// The notifications of `ns` addressed to the device `dev`: its `NewOffer`
/// and `SelectionIs` events, in order.
pub open spec fn device_directed(ns: Seq<Notification>, dev: DeviceId) -> Seq<Notification>
    decreases ns.len(),
{
    if ns.len() == 0 {
        Seq::<Notification>::empty()
    } else {
        let keep = match ns[0] {
            Notification::NewOffer { device, .. } => device == dev,
            Notification::SelectionIs { device, .. } => device == dev,
            _ => false,
        };
        if keep {
            seq![ns[0]] + device_directed(ns.skip(1), dev)
        } else {
            device_directed(ns.skip(1), dev)
        }
    }
}

/// `device_directed` distributes over concatenation.
pub proof fn lemma_device_directed_app(a: Seq<Notification>, b: Seq<Notification>, dev: DeviceId)
    ensures
        device_directed(a + b, dev) =~= device_directed(a, dev) + device_directed(b, dev),
    decreases a.len(),
{
    if a.len() == 0 {
        assert(a + b =~= b);
    } else {
        lemma_device_directed_app(a.skip(1), b, dev);
        assert((a + b).skip(1) =~= a.skip(1) + b);
        assert((a + b)[0] == a[0]);
    }
}

/// When no notification of `ns` is addressed to `dev`, nothing survives.
pub proof fn lemma_device_directed_none(ns: Seq<Notification>, dev: DeviceId)
    requires
        forall|k: int|
            0 <= k < ns.len() ==> match #[trigger] ns[k] {
                Notification::NewOffer { device, .. } => device != dev,
                Notification::SelectionIs { device, .. } => device != dev,
                _ => true,
            },
    ensures
        device_directed(ns, dev) =~= Seq::<Notification>::empty(),
    decreases ns.len(),
{
    if ns.len() > 0 {
        assert forall|k: int|
            0 <= k < ns.skip(1).len() implies match #[trigger] ns.skip(1)[k] {
            Notification::NewOffer { device, .. } => device != dev,
            Notification::SelectionIs { device, .. } => device != dev,
            _ => true,
        } by {
            assert(ns.skip(1)[k] == ns[k + 1]);
        }
        lemma_device_directed_none(ns.skip(1), dev);
        assert(ns[0] == ns[0]);
    }
}

/// When every notification of `ns` is addressed to `dev`, all survive.
pub proof fn lemma_device_directed_all(ns: Seq<Notification>, dev: DeviceId)
    requires
        forall|k: int|
            0 <= k < ns.len() ==> match #[trigger] ns[k] {
                Notification::NewOffer { device, .. } => device == dev,
                Notification::SelectionIs { device, .. } => device == dev,
                _ => false,
            },
    ensures
        device_directed(ns, dev) =~= ns,
    decreases ns.len(),
{
    if ns.len() > 0 {
        assert forall|k: int|
            0 <= k < ns.skip(1).len() implies match #[trigger] ns.skip(1)[k] {
            Notification::NewOffer { device, .. } => device == dev,
            Notification::SelectionIs { device, .. } => device == dev,
            _ => false,
        } by {
            assert(ns.skip(1)[k] == ns[k + 1]);
        }
        lemma_device_directed_all(ns.skip(1), dev);
    }
}

/// A broadcast addresses nothing to a device that is not in the table.
pub proof fn lemma_broadcast_absent_device(
    devs: Seq<Device>,
    seat: SeatId,
    owner: ClientId,
    next: u64,
    dev: DeviceId,
)
    requires
        forall|i: int| 0 <= i < devs.len() ==> (#[trigger] devs[i]).id != dev,
    ensures
        device_directed(broadcast_notifs(devs, seat, owner, next), dev) =~= Seq::<
            Notification,
        >::empty(),
    decreases devs.len(),
{
    if devs.len() > 0 {
        let rest = devs.skip(1);
        assert forall|i: int| 0 <= i < rest.len() implies (#[trigger] rest[i]).id != dev by {
            assert(rest[i] == devs[i + 1]);
        }
        let next2: u64 = if devs[0].seat == seat && takes_offer(devs[0], owner) {
            (next + 1) as u64
        } else {
            next
        };
        lemma_broadcast_absent_device(rest, seat, owner, next2, dev);
        if devs[0].seat == seat {
            lemma_device_directed_app(
                device_notifs(devs[0], seat, owner, next),
                broadcast_notifs(rest, seat, owner, next2),
                dev,
            );
            let dn = device_notifs(devs[0], seat, owner, next);
            lemma_device_directed_none(dn, dev);
        }
    }
}

/// Law: after a successful selection change, every device of the seat that
/// belongs to a client other than the source's owner is addressed exactly
/// one `NewOffer` followed by exactly one `SelectionIs` carrying the same
/// fresh offer, in that order — and nothing else.
pub proof fn lemma_broadcast_device_pair(
    devs: Seq<Device>,
    seat: SeatId,
    owner: ClientId,
    next: u64,
    k: int,
)
    requires
        forall|i: int, j: int| 0 <= i < j < devs.len() ==> devs[i].id != devs[j].id,
        0 <= k < devs.len(),
        devs[k].seat == seat,
        devs[k].client != owner,
        !devs[k].is_bridge,
    ensures
        exists|oid: OfferId|
            device_directed(broadcast_notifs(devs, seat, owner, next), devs[k].id) =~= seq![
                Notification::NewOffer { client: devs[k].client, device: devs[k].id, offer: oid },
                Notification::SelectionIs {
                    client: devs[k].client,
                    device: devs[k].id,
                    offer: Some(oid),
                },
            ],
    decreases devs.len(),
{
    let rest = devs.skip(1);
    let bcast = broadcast_notifs(devs, seat, owner, next);
    if k == 0 {
        let dn = device_notifs(devs[0], seat, owner, next);
        let next2: u64 = (next + 1) as u64;
        lemma_device_directed_app(dn, broadcast_notifs(rest, seat, owner, next2), devs[0].id);
        assert forall|i: int| 0 <= i < rest.len() implies (#[trigger] rest[i]).id
            != devs[0].id by {
            assert(rest[i] == devs[i + 1]);
        }
        lemma_broadcast_absent_device(rest, seat, owner, next2, devs[0].id);
        lemma_device_directed_all(dn, devs[0].id);
        assert(device_directed(bcast, devs[0].id) =~= seq![
            Notification::NewOffer {
                client: devs[0].client,
                device: devs[0].id,
                offer: OfferId(next),
            },
            Notification::SelectionIs {
                client: devs[0].client,
                device: devs[0].id,
                offer: Some(OfferId(next)),
            },
        ]);
    } else {
        assert forall|i: int, j: int| 0 <= i < j < rest.len() implies rest[i].id
            != rest[j].id by {
            assert(rest[i] == devs[i + 1]);
            assert(rest[j] == devs[j + 1]);
        }
        assert(rest[k - 1] == devs[k]);
        let next2: u64 = if devs[0].seat == seat && takes_offer(devs[0], owner) {
            (next + 1) as u64
        } else {
            next
        };
        lemma_broadcast_device_pair(rest, seat, owner, next2, k - 1);
        if devs[0].seat == seat {
            let dn = device_notifs(devs[0], seat, owner, next);
            lemma_device_directed_app(dn, broadcast_notifs(rest, seat, owner, next2), devs[k].id);
            assert(devs[0].id != devs[k].id);
            lemma_device_directed_none(dn, devs[k].id);
            let oid = choose|oid: OfferId|
                device_directed(broadcast_notifs(rest, seat, owner, next2), devs[k].id) =~= seq![
                    Notification::NewOffer {
                        client: devs[k].client,
                        device: devs[k].id,
                        offer: oid,
                    },
                    Notification::SelectionIs {
                        client: devs[k].client,
                        device: devs[k].id,
                        offer: Some(oid),
                    },
                ];
            assert(device_directed(bcast, devs[k].id) =~= seq![
                Notification::NewOffer { client: devs[k].client, device: devs[k].id, offer: oid },
                Notification::SelectionIs {
                    client: devs[k].client,
                    device: devs[k].id,
                    offer: Some(oid),
                },
            ]);
        }
    }
}

/// Law: the source's owner is never sent a `NewOffer` or an offer-bearing
/// `SelectionIs` for its own selection — each of its devices of the seat is
/// addressed exactly one "the selection is no offer" event.
pub proof fn lemma_broadcast_owner_silent(
    devs: Seq<Device>,
    seat: SeatId,
    owner: ClientId,
    next: u64,
    k: int,
)
    requires
        forall|i: int, j: int| 0 <= i < j < devs.len() ==> devs[i].id != devs[j].id,
        0 <= k < devs.len(),
        devs[k].seat == seat,
        devs[k].client == owner,
        !devs[k].is_bridge,
    ensures
        device_directed(broadcast_notifs(devs, seat, owner, next), devs[k].id) =~= seq![
            Notification::SelectionIs { client: owner, device: devs[k].id, offer: None },
        ],
    decreases devs.len(),
{
    let rest = devs.skip(1);
    let bcast = broadcast_notifs(devs, seat, owner, next);
    if k == 0 {
        let dn = device_notifs(devs[0], seat, owner, next);
        lemma_device_directed_app(dn, broadcast_notifs(rest, seat, owner, next), devs[0].id);
        assert forall|i: int| 0 <= i < rest.len() implies (#[trigger] rest[i]).id
            != devs[0].id by {
            assert(rest[i] == devs[i + 1]);
        }
        lemma_broadcast_absent_device(rest, seat, owner, next, devs[0].id);
        lemma_device_directed_all(dn, devs[0].id);
    } else {
        assert forall|i: int, j: int| 0 <= i < j < rest.len() implies rest[i].id
            != rest[j].id by {
            assert(rest[i] == devs[i + 1]);
            assert(rest[j] == devs[j + 1]);
        }
        assert(rest[k - 1] == devs[k]);
        let next2: u64 = if devs[0].seat == seat && takes_offer(devs[0], owner) {
            (next + 1) as u64
        } else {
            next
        };
        lemma_broadcast_owner_silent(rest, seat, owner, next2, k - 1);
        if devs[0].seat == seat {
            let dn = device_notifs(devs[0], seat, owner, next);
            lemma_device_directed_app(dn, broadcast_notifs(rest, seat, owner, next2), devs[k].id);
            assert(devs[0].id != devs[k].id);
            lemma_device_directed_none(dn, devs[k].id);
        }
    }
}

/// A broadcast of a new selection carries no cancellation notification.
pub proof fn lemma_broadcast_no_cancellations(
    devs: Seq<Device>,
    seat: SeatId,
    owner: ClientId,
    next: u64,
)
    ensures
        forall|k: int|
            0 <= k < broadcast_notifs(devs, seat, owner, next).len() ==> !(
            #[trigger] broadcast_notifs(devs, seat, owner, next)[k] is Cancelled),
    decreases devs.len(),
{
    if devs.len() > 0 {
        let next2: u64 = if devs[0].seat == seat && takes_offer(devs[0], owner) {
            (next + 1) as u64
        } else {
            next
        };
        lemma_broadcast_no_cancellations(devs.skip(1), seat, owner, next2);
        if devs[0].seat == seat {
            let dn = device_notifs(devs[0], seat, owner, next);
            let rest = broadcast_notifs(devs.skip(1), seat, owner, next2);
            assert forall|k: int|
                0 <= k < broadcast_notifs(devs, seat, owner, next).len() implies !(
            #[trigger] broadcast_notifs(devs, seat, owner, next)[k] is Cancelled) by {
                if k < dn.len() {
                    assert(broadcast_notifs(devs, seat, owner, next)[k] == dn[k]);
                } else {
                    assert(broadcast_notifs(devs, seat, owner, next)[k] == rest[k - dn.len()]);
                }
            }
        }
    }
}

/// An emptied selection carries no cancellation notification either.
pub proof fn lemma_clear_no_cancellations(devs: Seq<Device>, seat: SeatId)
    ensures
        forall|k: int|
            0 <= k < clear_notifs(devs, seat).len() ==> !(#[trigger] clear_notifs(devs, seat)[k]
                is Cancelled),
    decreases devs.len(),
{
    if devs.len() > 0 {
        lemma_clear_no_cancellations(devs.skip(1), seat);
        if devs[0].seat == seat {
            let rest = clear_notifs(devs.skip(1), seat);
            assert forall|k: int| 0 <= k < clear_notifs(devs, seat).len() implies !(
            #[trigger] clear_notifs(devs, seat)[k] is Cancelled) by {
                if k >= 1 {
                    assert(clear_notifs(devs, seat)[k] == rest[k - 1]);
                }
            }
        }
    }
}

/// Law: when a selection change supersedes a previous source, its owner is
/// notified of the cancellation exactly once — the first notification of
/// the output — and no other cancellation appears in that output.
pub proof fn lemma_supersede_cancels_once(
    devs: Seq<Device>,
    seat: SeatId,
    owner: ClientId,
    next: u64,
    prev_owner: ClientId,
    prev: SourceId,
)
    ensures
        ({
            let ns = seq![Notification::Cancelled { client: prev_owner, source: prev }]
                + broadcast_notifs(devs, seat, owner, next);
            &&& ns[0] == Notification::Cancelled { client: prev_owner, source: prev }
            &&& forall|k: int| 1 <= k < ns.len() ==> !(#[trigger] ns[k] is Cancelled)
        }),
{
    lemma_broadcast_no_cancellations(devs, seat, owner, next);
    let ns = seq![Notification::Cancelled { client: prev_owner, source: prev }]
        + broadcast_notifs(devs, seat, owner, next);
    assert forall|k: int| 1 <= k < ns.len() implies !(#[trigger] ns[k] is Cancelled) by {
        assert(ns[k] == broadcast_notifs(devs, seat, owner, next)[k - 1]);
    }
}

/// Law: at most one source is active per seat at any observation point —
/// two sources active on the same seat are the same source — and an active
/// source exists and has not been cancelled. Every engine operation
/// ensures `wf`, so this holds after any sequence of calls.
pub proof fn lemma_one_active_source(
    e: SelectionEngine,
    seat: SeatId,
    s1: SourceId,
    s2: SourceId,
)
    requires
        e.wf(),
        e.active_source(seat) == Some(s1),
        e.active_source(seat) == Some(s2),
    ensures
        s1 == s2,
        e.has_source(s1),
        !e.source_state(s1).cancelled,
{
    lemma_key_index(crate::selection::seat_keys(e.seats_view()), seat.0);
    assert(e.seats_view()[e.seat_index(seat)].active == Some(s1));
}

/// Law: destroying one device leaves every other device — in particular
/// every device of every other client — exactly as it was.
pub proof fn lemma_destroy_device_preserves_others(
    pre: SelectionEngine,
    post: SelectionEngine,
    device: DeviceId,
    other: DeviceId,
)
    requires
        pre.wf(),
        pre.has_device(device),
        post.devices_view() == pre.devices_view().remove(pre.device_index(device)),
        other != device,
        pre.has_device(other),
    ensures
        post.has_device(other),
        post.device_state(other) == pre.device_state(other),
{
    let keys = crate::selection::device_keys(pre.devices_view());
    let pkeys = crate::selection::device_keys(post.devices_view());
    lemma_key_index(keys, device.0);
    lemma_key_index(keys, other.0);
    let di = key_index(keys, device.0);
    let oi = key_index(keys, other.0);
    assert(di != oi);
    let ni: int = if oi < di {
        oi
    } else {
        oi - 1
    };
    assert(post.devices_view()[ni] == pre.devices_view()[oi]);
    assert(pkeys[ni] == other.0);
    lemma_key_index(pkeys, other.0);
    let fi = key_index(pkeys, other.0);
    assert(fi <= ni);
    let mi: int = if fi < di {
        fi
    } else {
        fi + 1
    };
    assert(post.devices_view()[fi] == pre.devices_view()[mi]);
    assert(keys[mi] == other.0);
    assert(mi == oi);
}

/// Law: a live offer is backed by the selection it came from: its seat is
/// known to the engine and the offer's source is exactly that seat's
/// currently active source — which, with `lemma_one_active_source`, is
/// unique. An offer therefore never outlives the source it references: the
/// moment the source is superseded, cleared or destroyed, the offer stops
/// being live.
pub proof fn lemma_live_offer_backed(e: SelectionEngine, off: OfferId)
    requires
        e.wf(),
        e.has_offer(off),
        e.offer_live(off),
    ensures
        e.has_seat(e.offer_state(off).seat),
        e.active_source(e.offer_state(off).seat) == Some(e.offer_state(off).source),
{
    let okeys = offer_keys(e.offers_view());
    lemma_key_index(okeys, off.0);
    let k = key_index(okeys, off.0);
    assert(okeys[k] == off.0);
    let o = e.offers_view()[k];
    assert(e.offer_backed(o));
    lemma_key_index(source_keys(e.sources_view()), o.source.0);
    assert(!e.sources_view()[key_index(source_keys(e.sources_view()), o.source.0)].cancelled);
    lemma_key_index(seat_keys(e.seats_view()), o.seat.0);
}

/// Law: once its source has been cancelled (destroyed, superseded, or
/// orphaned by a disconnect), every offer derived from it is stale.
pub proof fn lemma_cancelled_source_stales_offers(e: SelectionEngine, src: SourceId)
    requires
        e.wf(),
        e.has_source(src),
        e.source_state(src).cancelled,
    ensures
        forall|k: int|
            0 <= k < e.offers_view().len() && (#[trigger] e.offers_view()[k]).source == src
                ==> !e.offer_live(e.offers_view()[k].id),
{
    assert forall|k: int|
        0 <= k < e.offers_view().len() && (#[trigger] e.offers_view()[k]).source == src implies !e.offer_live(
        e.offers_view()[k].id,
    ) by {
        let okeys = offer_keys(e.offers_view());
        lemma_key_index(okeys, e.offers_view()[k].id.0);
        assert(okeys[k] == e.offers_view()[k].id.0);
        let ki = key_index(okeys, e.offers_view()[k].id.0);
        assert(e.offers_view()[ki].id == e.offers_view()[k].id);
        assert(ki == k);
        assert(e.offer_state(e.offers_view()[k].id) == e.offers_view()[k]);
    }
}

} // verus!
