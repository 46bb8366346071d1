//! The popup surface role: a short-lived surface positioned relative to a
//! parent surface. The window tree, the renderer and the wire objects are
//! outside collaborators; what is modelled and verified here is the
//! popup's position bookkeeping and its request/lifecycle decisions.

use vstd::prelude::*;

use crate::rect::{coord_in_range, Overflow, Rect};

verus! {

/// Coordinate magnitude up to which popup positioning is exercised; every
/// intermediate of the constraint adjustment then fits `i32`.
pub const POS_LIMIT: i32 = 0x400_0000;

/// Constraint-adjustment bits a positioner can enable.
pub const CA_FLIP_X: u32 = 1;

pub const CA_FLIP_Y: u32 = 2;

pub const CA_SLIDE_X: u32 = 4;

pub const CA_SLIDE_Y: u32 = 8;

pub const CA_RESIZE_X: u32 = 16;

pub const CA_RESIZE_Y: u32 = 32;

/// Where on the anchor rectangle the popup anchors.
#[derive(Clone, Copy, PartialEq, Eq, Structural, Debug)]
pub enum Anchor {
    Unset,
    Top,
    Bottom,
    Left,
    Right,
    TopLeft,
    BottomLeft,
    TopRight,
    BottomRight,
}

/// Which way the popup extends from the anchor point.
#[derive(Clone, Copy, PartialEq, Eq, Structural, Debug)]
pub enum Gravity {
    Unset,
    Top,
    Bottom,
    Left,
    Right,
    TopLeft,
    BottomLeft,
    TopRight,
    BottomRight,
}

/// One axis of an anchor or gravity: at the low edge, centered, or at the
/// high edge.
#[derive(Clone, Copy, PartialEq, Eq, Structural, Debug)]
pub enum Edge {
    Low,
    Center,
    High,
}

/// The horizontal component of an anchor, mirrored under a flip.
pub open spec fn anchor_h(a: Anchor, flip: bool) -> Edge {
    let e = match a {
        Anchor::Left | Anchor::TopLeft | Anchor::BottomLeft => Edge::Low,
        Anchor::Right | Anchor::TopRight | Anchor::BottomRight => Edge::High,
        _ => Edge::Center,
    };
    if flip {
        mirror_edge(e)
    } else {
        e
    }
}

/// The vertical component of an anchor, mirrored under a flip.
pub open spec fn anchor_v(a: Anchor, flip: bool) -> Edge {
    let e = match a {
        Anchor::Top | Anchor::TopLeft | Anchor::TopRight => Edge::Low,
        Anchor::Bottom | Anchor::BottomLeft | Anchor::BottomRight => Edge::High,
        _ => Edge::Center,
    };
    if flip {
        mirror_edge(e)
    } else {
        e
    }
}

/// The horizontal component of a gravity, mirrored under a flip.
pub open spec fn gravity_h(g: Gravity, flip: bool) -> Edge {
    let e = match g {
        Gravity::Left | Gravity::TopLeft | Gravity::BottomLeft => Edge::Low,
        Gravity::Right | Gravity::TopRight | Gravity::BottomRight => Edge::High,
        _ => Edge::Center,
    };
    if flip {
        mirror_edge(e)
    } else {
        e
    }
}

/// The vertical component of a gravity, mirrored under a flip.
pub open spec fn gravity_v(g: Gravity, flip: bool) -> Edge {
    let e = match g {
        Gravity::Top | Gravity::TopLeft | Gravity::TopRight => Edge::Low,
        Gravity::Bottom | Gravity::BottomLeft | Gravity::BottomRight => Edge::High,
        _ => Edge::Center,
    };
    if flip {
        mirror_edge(e)
    } else {
        e
    }
}

pub open spec fn mirror_edge(e: Edge) -> Edge {
    match e {
        Edge::Low => Edge::High,
        Edge::Center => Edge::Center,
        Edge::High => Edge::Low,
    }
}

/// Wire requests a popup accepts, by protocol opcode order.
pub const DESTROY: u32 = 0;

pub const GRAB: u32 = 1;

pub const REPOSITION: u32 = 2;

/// Why a popup could not be created or repositioned.
#[derive(Clone, Copy, PartialEq, Eq, Structural, Debug)]
pub enum XdgPopupError {
    /// The positioner is incomplete: it lacks a positive size.
    Incomplete,
}

/// The positioner state a popup is created from: a size, an anchor
/// rectangle in the parent, an anchor and gravity, an offset, and the
/// constraint adjustments the client allows. A positioner is complete once
/// the client has supplied a positive size.
#[derive(Clone, Copy, PartialEq, Eq, Structural, Debug)]
pub struct XdgPositioned {
    pub size_width: i32,
    pub size_height: i32,
    pub ar: Rect,
    pub anchor: Anchor,
    pub gravity: Gravity,
    pub off_x: i32,
    pub off_y: i32,
    pub ca: u32,
}

/// A positioner whose coordinates stay in the exercised range.
pub open spec fn positioner_small(pos: XdgPositioned) -> bool {
    &&& pos.ar.wf()
    &&& pos.ar.within(POS_LIMIT as int)
    &&& 0 < pos.size_width <= POS_LIMIT
    &&& 0 < pos.size_height <= POS_LIMIT
    &&& -POS_LIMIT <= pos.off_x <= POS_LIMIT
    &&& -POS_LIMIT <= pos.off_y <= POS_LIMIT
}

/// The coordinate of an edge choice along one axis of a rectangle given by
/// its two ends; the center divides the (non-negative) span.
pub open spec fn edge_coord(e: Edge, lo: int, hi: int) -> int {
    match e {
        Edge::Low => lo,
        Edge::Center => lo + (hi - lo) / 2,
        Edge::High => hi,
    }
}

/// Where one axis of the popup starts: at the anchor point the popup
/// extends along its gravity; the offset shifts it, mirrored under a flip.
pub open spec fn axis_start(
    anchor: Edge,
    gravity: Edge,
    lo: int,
    hi: int,
    size: int,
    off: int,
    flip: bool,
) -> int {
    let a = edge_coord(anchor, lo, hi) + (if flip {
        -off
    } else {
        off
    });
    match gravity {
        Edge::High => a,
        Edge::Low => a - size,
        Edge::Center => a - size / 2,
    }
}

/// The popup rectangle a positioner yields, relative to the parent, with
/// the anchor and gravity optionally flipped per axis.
#[verifier::opaque]
pub open spec fn spec_get_position(pos: XdgPositioned, flip_x: bool, flip_y: bool) -> Rect {
    let x1 = axis_start(
        anchor_h(pos.anchor, flip_x),
        gravity_h(pos.gravity, flip_x),
        pos.ar.x1 as int,
        pos.ar.x2 as int,
        pos.size_width as int,
        pos.off_x as int,
        flip_x,
    );
    let y1 = axis_start(
        anchor_v(pos.anchor, flip_y),
        gravity_v(pos.gravity, flip_y),
        pos.ar.y1 as int,
        pos.ar.y2 as int,
        pos.size_height as int,
        pos.off_y as int,
        flip_y,
    );
    Rect {
        x1: x1 as i32,
        y1: y1 as i32,
        x2: (x1 + pos.size_width) as i32,
        y2: (y1 + pos.size_height) as i32,
    }
}

impl XdgPositioned {
    pub open spec fn spec_complete(self) -> bool {
        self.size_width > 0 && self.size_height > 0
    }

    /// Whether the client has supplied everything a popup needs.
    pub fn is_complete(&self) -> (r: bool)
        ensures
            r == self.spec_complete(),
    {
        self.size_width > 0 && self.size_height > 0
    }

    fn anchor_point_x(&self, flip: bool) -> (r: i32)
        requires
            positioner_small(*self),
        ensures
            r == edge_coord(anchor_h(self.anchor, flip), self.ar.x1 as int, self.ar.x2 as int),
            -POS_LIMIT <= r <= POS_LIMIT,
    {
        let low = match self.anchor {
            Anchor::Left | Anchor::TopLeft | Anchor::BottomLeft => !flip,
            Anchor::Right | Anchor::TopRight | Anchor::BottomRight => flip,
            _ => false,
        };
        let high = match self.anchor {
            Anchor::Right | Anchor::TopRight | Anchor::BottomRight => !flip,
            Anchor::Left | Anchor::TopLeft | Anchor::BottomLeft => flip,
            _ => false,
        };
        if low {
            self.ar.x1
        } else if high {
            self.ar.x2
        } else {
            self.ar.x1 + (self.ar.x2 - self.ar.x1) / 2
        }
    }

    fn anchor_point_y(&self, flip: bool) -> (r: i32)
        requires
            positioner_small(*self),
        ensures
            r == edge_coord(anchor_v(self.anchor, flip), self.ar.y1 as int, self.ar.y2 as int),
            -POS_LIMIT <= r <= POS_LIMIT,
    {
        let low = match self.anchor {
            Anchor::Top | Anchor::TopLeft | Anchor::TopRight => !flip,
            Anchor::Bottom | Anchor::BottomLeft | Anchor::BottomRight => flip,
            _ => false,
        };
        let high = match self.anchor {
            Anchor::Bottom | Anchor::BottomLeft | Anchor::BottomRight => !flip,
            Anchor::Top | Anchor::TopLeft | Anchor::TopRight => flip,
            _ => false,
        };
        if low {
            self.ar.y1
        } else if high {
            self.ar.y2
        } else {
            self.ar.y1 + (self.ar.y2 - self.ar.y1) / 2
        }
    }

    /// The popup rectangle this positioner yields, relative to the parent.
    pub fn get_position(&self, flip_x: bool, flip_y: bool) -> (r: Rect)
        requires
            positioner_small(*self),
        ensures
            r == spec_get_position(*self, flip_x, flip_y),
            r.wf(),
            r.within(0x1000_0000),
            r.x2 - r.x1 == self.size_width,
            r.y2 - r.y1 == self.size_height,
    {
        proof {
            reveal(spec_get_position);
        }
        let ax = self.anchor_point_x(flip_x) + (if flip_x {
            -self.off_x
        } else {
            self.off_x
        });
        let gx_low = match self.gravity {
            Gravity::Left | Gravity::TopLeft | Gravity::BottomLeft => !flip_x,
            Gravity::Right | Gravity::TopRight | Gravity::BottomRight => flip_x,
            _ => false,
        };
        let gx_high = match self.gravity {
            Gravity::Right | Gravity::TopRight | Gravity::BottomRight => !flip_x,
            Gravity::Left | Gravity::TopLeft | Gravity::BottomLeft => flip_x,
            _ => false,
        };
        let x1 = if gx_high {
            ax
        } else if gx_low {
            ax - self.size_width
        } else {
            ax - self.size_width / 2
        };
        let ay = self.anchor_point_y(flip_y) + (if flip_y {
            -self.off_y
        } else {
            self.off_y
        });
        let gy_low = match self.gravity {
            Gravity::Top | Gravity::TopLeft | Gravity::TopRight => !flip_y,
            Gravity::Bottom | Gravity::BottomLeft | Gravity::BottomRight => flip_y,
            _ => false,
        };
        let gy_high = match self.gravity {
            Gravity::Bottom | Gravity::BottomLeft | Gravity::BottomRight => !flip_y,
            Gravity::Top | Gravity::TopLeft | Gravity::TopRight => flip_y,
            _ => false,
        };
        let y1 = if gy_high {
            ay
        } else if gy_low {
            ay - self.size_height
        } else {
            ay - self.size_height / 2
        };
        Rect { x1, y1, x2: x1 + self.size_width, y2: y1 + self.size_height }
    }
}

/// Events a popup owes its client.
#[derive(Clone, Copy, PartialEq, Eq, Structural, Debug)]
pub enum XdgPopupEvent {
    Configure { x: i32, y: i32, width: i32, height: i32 },
    Repositioned { token: u32 },
    PopupDone,
}

/// The popup role object. `parent_extents` mirrors the parent surface's
/// absolute desired extents; `absolute_position` is what the surface
/// machinery is told to use.
pub struct XdgPopup {
    pub id: u64,
    pub version: u32,
    pub parent_extents: Option<Rect>,
    pub relative_position: Rect,
    pub absolute_position: Rect,
    pub pos: XdgPositioned,
    pub mapped: bool,
}

/// One popup position candidate and its absolute form: the absolute
/// rectangle is the relative one moved by the parent's origin, both are
/// ordered, the coordinates stay in range, and the size is the
/// positioner's unless `resized` admits a clamp.
pub open spec fn candidate_ok(
    pos: XdgPositioned,
    p: Rect,
    rel: Rect,
    abs: Rect,
    m: int,
    resized: bool,
) -> bool {
    &&& rel.wf()
    &&& rel.within(m)
    &&& abs.x1 == rel.x1 + p.x1
    &&& abs.y1 == rel.y1 + p.y1
    &&& abs.x2 == rel.x2 + p.x1
    &&& abs.y2 == rel.y2 + p.y1
    &&& (!resized || pos.ca & CA_RESIZE_X == 0 ==> rel.x2 - rel.x1 == pos.size_width)
    &&& (!resized || pos.ca & CA_RESIZE_Y == 0 ==> rel.y2 - rel.y1 == pos.size_height)
}

/// Flip the position across the anchor on each overflowing axis the
/// positioner allows, keeping a flip only where it removes the overflow.
fn apply_flips(pos: &XdgPositioned, p: Rect, out: Rect, rel0: Rect, abs0: Rect, ov0: Overflow) -> (r: (
    Rect,
    Rect,
))
    requires
        positioner_small(*pos),
        p.within(POS_LIMIT as int),
        out.wf(),
        out.within(POS_LIMIT as int),
        candidate_ok(*pos, p, rel0, abs0, 0x1000_0000, false),
        ov0.left == out.x1 - abs0.x1,
        ov0.right == abs0.x2 - out.x2,
        ov0.top == out.y1 - abs0.y1,
        ov0.bottom == abs0.y2 - out.y2,
    ensures
        candidate_ok(*pos, p, r.0, r.1, 0x1000_0000, false),
{
    let mut flip_x = (pos.ca & CA_FLIP_X != 0) && (ov0.left > 0 || ov0.right > 0);
    let mut flip_y = (pos.ca & CA_FLIP_Y != 0) && (ov0.top > 0 || ov0.bottom > 0);
    if !(flip_x || flip_y) {
        return (rel0, abs0);
    }
    let mut adj_rel = pos.get_position(flip_x, flip_y);
    let mut adj_abs = adj_rel.move_(p.x1, p.y1);
    let mut adj_overflow = out.get_overflow(&adj_abs);
    let mut recalculate = false;
    if flip_x && adj_overflow.x_overflow() {
        flip_x = false;
        recalculate = true;
    }
    if flip_y && adj_overflow.y_overflow() {
        flip_y = false;
        recalculate = true;
    }
    if flip_x || flip_y {
        if recalculate {
            adj_rel = pos.get_position(flip_x, flip_y);
            adj_abs = adj_rel.move_(p.x1, p.y1);
        }
        (adj_rel, adj_abs)
    } else {
        (rel0, abs0)
    }
}

/// Slide the position to the parent's near or far edge on each overflowing
/// axis the positioner allows.
fn apply_slides(pos: &XdgPositioned, p: Rect, out: Rect, rel0: Rect, abs0: Rect) -> (r: (
    Rect,
    Rect,
))
    requires
        positioner_small(*pos),
        p.within(POS_LIMIT as int),
        out.wf(),
        out.within(POS_LIMIT as int),
        candidate_ok(*pos, p, rel0, abs0, 0x1000_0000, false),
    ensures
        candidate_ok(*pos, p, r.0, r.1, 0x1800_0000, false),
{
    let overflow = out.get_overflow(&abs0);
    let mut dx: i32 = 0;
    let mut dy: i32 = 0;
    if (pos.ca & CA_SLIDE_X != 0) && overflow.x_overflow() {
        dx = if overflow.left > 0 || overflow.left + overflow.right > 0 {
            p.x1 - abs0.x1
        } else {
            p.x2 - abs0.x2
        };
    }
    if (pos.ca & CA_SLIDE_Y != 0) && overflow.y_overflow() {
        dy = if overflow.top > 0 || overflow.top + overflow.bottom > 0 {
            p.y1 - abs0.y1
        } else {
            p.y2 - abs0.y2
        };
    }
    if dx != 0 || dy != 0 {
        let rel = rel0.move_(dx, dy);
        let abs = rel.move_(p.x1, p.y1);
        (rel, abs)
    } else {
        (rel0, abs0)
    }
}

/// Clamp the position to the output on each axis the positioner allows;
/// a clamp that would turn the rectangle inside out is dropped and the
/// unresized position stands.
fn apply_resize(pos: &XdgPositioned, p: Rect, out: Rect, rel0: Rect, abs0: Rect) -> (r: (
    Rect,
    Rect,
))
    requires
        positioner_small(*pos),
        p.within(POS_LIMIT as int),
        out.wf(),
        out.within(POS_LIMIT as int),
        candidate_ok(*pos, p, rel0, abs0, 0x1800_0000, false),
    ensures
        candidate_ok(*pos, p, r.0, r.1, 0x2000_0000, true),
{
    let overflow = out.get_overflow(&abs0);
    let mut dx1: i32 = 0;
    let mut dx2: i32 = 0;
    let mut dy1: i32 = 0;
    let mut dy2: i32 = 0;
    if pos.ca & CA_RESIZE_X != 0 {
        dx1 = if overflow.left > 0 {
            overflow.left
        } else {
            0
        };
        dx2 = if overflow.right > 0 {
            -overflow.right
        } else {
            0
        };
    }
    if pos.ca & CA_RESIZE_Y != 0 {
        dy1 = if overflow.top > 0 {
            overflow.top
        } else {
            0
        };
        dy2 = if overflow.bottom > 0 {
            -overflow.bottom
        } else {
            0
        };
    }
    if dx1 > 0 || dx2 < 0 || dy1 > 0 || dy2 < 0 {
        if let Some(clamped) = Rect::new(
            abs0.x1 + dx1,
            abs0.y1 + dy1,
            abs0.x2 + dx2,
            abs0.y2 + dy2,
        ) {
            let rel = Rect {
                x1: clamped.x1 - p.x1,
                y1: clamped.y1 - p.y1,
                x2: clamped.x2 - p.x1,
                y2: clamped.y2 - p.y1,
            };
            return (rel, clamped);
        }
    }
    (rel0, abs0)
}

impl XdgPopup {
    pub open spec fn wf(self) -> bool {
        &&& self.relative_position.wf()
        &&& self.relative_position.bounded()
        &&& self.absolute_position.wf()
        &&& match self.parent_extents {
            Some(p) => p.wf() && p.bounded(),
            None => true,
        }
    }

    /// Create the popup role from a positioner; an incomplete positioner
    /// is a protocol error.
    pub fn new(id: u64, version: u32, parent: Option<Rect>, pos: &XdgPositioned) -> (r: Result<
        XdgPopup,
        XdgPopupError,
    >)
        requires
            match parent {
                Some(p) => p.wf() && p.bounded(),
                None => true,
            },
        ensures
            r is Ok <==> pos.spec_complete(),
            r matches Err(e) ==> e == XdgPopupError::Incomplete,
            r matches Ok(popup) ==> {
                &&& popup.wf()
                &&& popup.id == id
                &&& popup.version == version
                &&& popup.parent_extents == parent
                &&& popup.pos == *pos
                &&& popup.relative_position == (Rect { x1: 0, y1: 0, x2: 0, y2: 0 })
                &&& popup.absolute_position == (Rect { x1: 0, y1: 0, x2: 0, y2: 0 })
                &&& !popup.mapped
            },
    {
        if !pos.is_complete() {
            return Err(XdgPopupError::Incomplete);
        }
        Ok(
            XdgPopup {
                id,
                version,
                parent_extents: parent,
                relative_position: Rect { x1: 0, y1: 0, x2: 0, y2: 0 },
                absolute_position: Rect { x1: 0, y1: 0, x2: 0, y2: 0 },
                pos: *pos,
                mapped: false,
            },
        )
    }

    /// The configure event for the popup's current relative position.
    pub fn configure(&self) -> (r: XdgPopupEvent)
        requires
            self.relative_position.wf(),
            self.relative_position.bounded(),
        ensures
            r == (XdgPopupEvent::Configure {
                x: self.relative_position.x1,
                y: self.relative_position.y1,
                width: (self.relative_position.x2 - self.relative_position.x1) as i32,
                height: (self.relative_position.y2 - self.relative_position.y1) as i32,
            }),
    {
        XdgPopupEvent::Configure {
            x: self.relative_position.x1,
            y: self.relative_position.y1,
            width: self.relative_position.x2 - self.relative_position.x1,
            height: self.relative_position.y2 - self.relative_position.y1,
        }
    }

    /// The acknowledgement of a reposition request.
    pub fn repositioned(&self, token: u32) -> (r: XdgPopupEvent)
        ensures
            r == (XdgPopupEvent::Repositioned { token }),
    {
        XdgPopupEvent::Repositioned { token }
    }

    /// The event that dismisses the popup.
    pub fn popup_done(&self) -> (r: XdgPopupEvent)
        ensures
            r == XdgPopupEvent::PopupDone,
    {
        XdgPopupEvent::PopupDone
    }

    /// Recompute the absolute position from the parent's extents and the
    /// stored relative position. A popup without a parent keeps its
    /// position.
    pub fn update_absolute_position(&mut self)
        requires
            old(self).wf(),
        ensures
            final(self).wf(),
            ({
                let o = *old(self);
                let f = *final(self);
                &&& f.id == o.id
                &&& f.version == o.version
                &&& f.parent_extents == o.parent_extents
                &&& f.relative_position == o.relative_position
                &&& f.pos == o.pos
                &&& f.mapped == o.mapped
                &&& f.absolute_position == (match o.parent_extents {
                    Some(p) => Rect {
                        x1: (o.relative_position.x1 + p.x1) as i32,
                        y1: (o.relative_position.y1 + p.y1) as i32,
                        x2: (o.relative_position.x2 + p.x1) as i32,
                        y2: (o.relative_position.y2 + p.y1) as i32,
                    },
                    None => o.absolute_position,
                })
            }),
    {
        if let Some(p) = self.parent_extents {
            self.absolute_position = self.relative_position.move_(p.x1, p.y1);
        }
    }

    /// Compute the popup's position from its positioner and the parent's
    /// extents: the unadjusted position first; when it overflows the
    /// output and the positioner allows an adjustment, the popup flips
    /// across its anchor (kept only where the flip helps), then slides to
    /// the parent's edges, and finally resizes to the output — in that
    /// order. A clamp that would turn the rectangle inside out is dropped
    /// and the unresized position stands.
    pub fn update_position(&mut self, output: Option<Rect>)
        requires
            old(self).wf(),
            old(self).parent_extents matches Some(p) && p.within(POS_LIMIT as int),
            positioner_small(old(self).pos),
            output matches Some(o) ==> o.wf() && o.within(POS_LIMIT as int),
        ensures
            final(self).wf(),
            final(self).id == old(self).id,
            final(self).version == old(self).version,
            final(self).parent_extents == old(self).parent_extents,
            final(self).pos == old(self).pos,
            final(self).mapped == old(self).mapped,
            old(self).parent_extents matches Some(p) ==> {
                let base = spec_get_position(old(self).pos, false, false);
                &&& final(self).absolute_position.x1 == final(self).relative_position.x1 + p.x1
                &&& final(self).absolute_position.y1 == final(self).relative_position.y1 + p.y1
                &&& final(self).absolute_position.x2 == final(self).relative_position.x2 + p.x1
                &&& final(self).absolute_position.y2 == final(self).relative_position.y2 + p.y1
                &&& (output is None ==> final(self).relative_position == base)
                &&& (output matches Some(o) && o.spec_contains_rect(
                    Rect {
                        x1: (base.x1 + p.x1) as i32,
                        y1: (base.y1 + p.y1) as i32,
                        x2: (base.x2 + p.x1) as i32,
                        y2: (base.y2 + p.y1) as i32,
                    },
                ) ==> final(self).relative_position == base)
                &&& (old(self).pos.ca & CA_RESIZE_X == 0 ==> final(self).relative_position.x2
                    - final(self).relative_position.x1 == old(self).pos.size_width)
                &&& (old(self).pos.ca & CA_RESIZE_Y == 0 ==> final(self).relative_position.y2
                    - final(self).relative_position.y1 == old(self).pos.size_height)
            },
    {
        let p = match self.parent_extents {
            Some(p) => p,
            None => {
                return ;
            },
        };
        let mut rel_pos = self.pos.get_position(false, false);
        let mut abs_pos = rel_pos.move_(p.x1, p.y1);
        if let Some(out) = output {
            let overflow = out.get_overflow(&abs_pos);
            if !overflow.is_contained() {
                let (r1, a1) = apply_flips(&self.pos, p, out, rel_pos, abs_pos, overflow);
                let (r2, a2) = apply_slides(&self.pos, p, out, r1, a1);
                let (r3, a3) = apply_resize(&self.pos, p, out, r2, a2);
                rel_pos = r3;
                abs_pos = a3;
            }
        }
        self.relative_position = rel_pos;
        self.absolute_position = abs_pos;
    }

    /// The reposition request: adopt a new positioner, recompute the
    /// position, and owe the client the acknowledgement followed by the
    /// configure for the new position.
    pub fn reposition(&mut self, new_pos: XdgPositioned, output: Option<Rect>, token: u32) -> (r: (
        XdgPopupEvent,
        XdgPopupEvent,
    ))
        requires
            old(self).wf(),
            old(self).parent_extents matches Some(p) && p.within(POS_LIMIT as int),
            positioner_small(new_pos),
            output matches Some(o) ==> o.wf() && o.within(POS_LIMIT as int),
        ensures
            final(self).wf(),
            final(self).pos == new_pos,
            final(self).parent_extents == old(self).parent_extents,
            r.0 == (XdgPopupEvent::Repositioned { token }),
            r.1 == (XdgPopupEvent::Configure {
                x: final(self).relative_position.x1,
                y: final(self).relative_position.y1,
                width: (final(self).relative_position.x2 - final(self).relative_position.x1) as i32,
                height: (final(self).relative_position.y2 - final(self).relative_position.y1) as i32,
            }),
    {
        self.pos = new_pos;
        self.update_position(output);
        let ack = self.repositioned(token);
        let conf = self.configure();
        (ack, conf)
    }

    /// A grab request is accepted and currently a no-op.
    pub fn grab(&self)
        ensures
            true,
    {
    }

    /// How many requests this popup's negotiated version understands.
    pub fn num_requests(&self) -> (r: u32)
        ensures
            r == (if self.version <= 2 {
                GRAB + 1
            } else {
                REPOSITION + 1
            }),
    {
        if self.version <= 2 {
            GRAB + 1
        } else {
            REPOSITION + 1
        }
    }

    /// The configure sent when the surface first commits: a popup with a
    /// parent is told its position; an orphan popup owes nothing yet.
    pub fn initial_configure(&self) -> (r: Option<XdgPopupEvent>)
        requires
            self.wf(),
        ensures
            r == (match self.parent_extents {
                Some(_) => Some(
                    XdgPopupEvent::Configure {
                        x: self.relative_position.x1,
                        y: self.relative_position.y1,
                        width: (self.relative_position.x2 - self.relative_position.x1) as i32,
                        height: (self.relative_position.y2 - self.relative_position.y1) as i32,
                    },
                ),
                None => None::<XdgPopupEvent>,
            }),
    {
        match self.parent_extents {
            Some(_) => Some(self.configure()),
            None => None,
        }
    }

    /// What a commit does to the popup's mapping: with a buffer attached an
    /// unmapped popup maps into the tree; without one a mapped popup
    /// unmaps and its client is told the popup is done. A popup whose
    /// parent has no workspace stays as it is.
    pub fn post_commit(&mut self, has_workspace: bool, has_buffer: bool) -> (r: Option<
        XdgPopupEvent,
    >)
        requires
            old(self).wf(),
        ensures
            final(self).wf(),
            final(self).parent_extents == old(self).parent_extents,
            final(self).relative_position == old(self).relative_position,
            final(self).absolute_position == old(self).absolute_position,
            !has_workspace ==> *final(self) == *old(self) && r is None,
            has_workspace && has_buffer ==> final(self).mapped && r is None,
            has_workspace && !has_buffer && old(self).mapped ==> !final(self).mapped && r == Some(
                XdgPopupEvent::PopupDone,
            ),
            has_workspace && !has_buffer && !old(self).mapped ==> *final(self) == *old(self) && r
                is None,
    {
        if !has_workspace {
            return None;
        }
        if has_buffer {
            self.mapped = true;
            None
        } else if self.mapped {
            self.mapped = false;
            Some(self.popup_done())
        } else {
            None
        }
    }

    /// The destroy request: the popup unmaps and detaches from its parent.
    pub fn destroy(&mut self)
        requires
            old(self).wf(),
        ensures
            final(self).wf(),
            !final(self).mapped,
            final(self).parent_extents is None,
            final(self).relative_position == old(self).relative_position,
            final(self).absolute_position == old(self).absolute_position,
    {
        self.mapped = false;
        self.parent_extents = None;
    }

    /// Teardown at client disconnect: same unlinking as destroy, safe to
    /// run redundantly.
    pub fn break_loops(&mut self)
        requires
            old(self).wf(),
        ensures
            final(self).wf(),
            !final(self).mapped,
            final(self).parent_extents is None,
    {
        self.mapped = false;
        self.parent_extents = None;
    }
}

} // verus!
