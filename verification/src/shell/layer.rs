//! Layer surfaces: bars, docks, backgrounds, overlays. State is double buffered and
//! checked on every commit; the defaults are invalid, so a bare commit is an error.
//! Unmapping resets everything to those defaults and restarts the configure cycle.
//! Exclusive zones add up in arrangement order (overlay down to background, mapping
//! order within a layer), so two bars on one edge stack instead of overlapping; what
//! they leave over is the tiling area.
use crate::list::{find, retain};
use crate::output::first_slot;
use crate::protocol::events::{refused, sent, told_invalid, Event, Out, Sent};
use crate::protocol::interfaces::{Interface, IMPLEMENTATION};
use crate::protocol::{ObjectId, SurfaceFacts};
use crate::rect::Rect;
use vstd::prelude::*;

verus! {

pub const BACKGROUND: u32 = 0;

pub const BOTTOM: u32 = 1;

pub const TOP: u32 = 2;

pub const OVERLAY: u32 = 3;

pub const A_TOP: u32 = 1;

pub const A_BOTTOM: u32 = 2;

pub const A_LEFT: u32 = 4;

pub const A_RIGHT: u32 = 8;

/// left and right
pub const A_ACROSS: u32 = 12;

/// top and bottom
pub const A_DOWN: u32 = 3;

pub const KI_NONE: u32 = 0;

pub const KI_EXCLUSIVE: u32 = 1;

pub const KI_ON_DEMAND: u32 = 2;

pub const ROLE: u32 = 0;

pub const INVALID_LAYER: u32 = 1;

pub const ALREADY_CONSTRUCTED: u32 = 2;

pub const INVALID_SURFACE_STATE: u32 = 0;

pub const INVALID_SIZE: u32 = 1;

pub const INVALID_ANCHOR: u32 = 2;

pub const INVALID_KI: u32 = 3;

pub const INVALID_EXCLUSIVE_EDGE: u32 = 4;

pub struct LayerShellGlobal;

impl LayerShellGlobal {
    pub fn interface(&self) -> (r: Interface)
        ensures
            r is ZwlrLayerShellV1,
    {
        Interface::ZwlrLayerShellV1
    }

    pub fn version(&self) -> (r: u32)
        ensures
            r == 5,
    {
        5
    }

    pub fn bind(&self, client: u32, id: ObjectId, version: u32) -> (r: LayerShell)
        ensures
            r == (LayerShell { id, client, version }),
    {
        LayerShell { id, client, version }
    }
}

#[derive(Clone, Copy, Debug, PartialEq, Eq, Structural)]
pub struct LayerShell {
    pub id: ObjectId,
    pub client: u32,
    pub version: u32,
}

/// Space kept off the edges of a surface.
#[derive(Clone, Copy, Debug, PartialEq, Eq, Structural)]
pub struct Margin {
    pub top: i32,
    pub right: i32,
    pub bottom: i32,
    pub left: i32,
}

#[derive(Clone, Copy, Debug, PartialEq, Eq)]
pub struct LayerState {
    pub size: (u32, u32),
    pub anchor: u32,
    pub exclusive: i32,
    pub margin: Margin,
    pub ki: u32,
    pub layer: u32,
    pub exclusive_edge: u32,
}

pub open spec fn is_edge(e: u32) -> bool {
    e == A_TOP || e == A_BOTTOM || e == A_LEFT || e == A_RIGHT
}

pub open spec fn default_state(layer: u32) -> LayerState {
    LayerState {
        size: (0, 0),
        anchor: 0,
        exclusive: 0,
        margin: Margin { top: 0, right: 0, bottom: 0, left: 0 },
        ki: KI_NONE,
        layer,
        exclusive_edge: 0,
    }
}

/// What a state breaks as a whole.
pub open spec fn state_fault(s: LayerState) -> Option<(u32, Seq<char>)> {
    if s.size.0 == 0 && s.anchor & A_ACROSS != A_ACROSS {
        Some((INVALID_SIZE, "width 0 needs both left and right anchors"@))
    } else if s.size.1 == 0 && s.anchor & A_DOWN != A_DOWN {
        Some((INVALID_SIZE, "height 0 needs both top and bottom anchors"@))
    } else if s.exclusive_edge != 0 && !is_edge(s.exclusive_edge) {
        Some((INVALID_EXCLUSIVE_EDGE, "exclusive edge must be one edge"@))
    } else if s.exclusive_edge != 0 && s.anchor & s.exclusive_edge == 0 {
        Some((INVALID_EXCLUSIVE_EDGE, "exclusive edge must be anchored"@))
    } else {
        None
    }
}

/// The edge that the exclusive zone claims.
pub open spec fn claimed_edge(s: LayerState) -> Option<u32> {
    let across = s.anchor & A_ACROSS;
    let down = s.anchor & A_DOWN;
    if s.exclusive <= 0 {
        None
    } else if s.exclusive_edge != 0 {
        Some(s.exclusive_edge)
    } else if across == A_LEFT && (down == 0 || down == A_DOWN) {
        Some(A_LEFT)
    } else if across == A_RIGHT && (down == 0 || down == A_DOWN) {
        Some(A_RIGHT)
    } else if down == A_TOP && (across == 0 || across == A_ACROSS) {
        Some(A_TOP)
    } else if down == A_BOTTOM && (across == 0 || across == A_ACROSS) {
        Some(A_BOTTOM)
    } else {
        None
    }
}

impl LayerState {
    /// What the requests keep of a state: sizes and zones in range, one edge, a layer.
    pub open spec fn wf(self) -> bool {
        &&& self.size.0 <= 65535
        &&& self.size.1 <= 65535
        &&& -1 <= self.exclusive <= 65535
        &&& self.layer <= OVERLAY
        &&& self.exclusive_edge == 0 || is_edge(self.exclusive_edge)
    }

    pub fn new(layer: u32) -> (s: LayerState)
        ensures
            s == default_state(layer),
            layer <= OVERLAY ==> s.wf(),
    {
        LayerState {
            size: (0, 0),
            anchor: 0,
            exclusive: 0,
            margin: Margin { top: 0, right: 0, bottom: 0, left: 0 },
            ki: KI_NONE,
            layer,
            exclusive_edge: 0,
        }
    }

    /// Checks the combination, on every commit.
    pub fn validate(&self) -> (r: Result<(), (u32, &'static str)>)
        ensures
            match state_fault(*self) {
                None => r is Ok,
                Some((code, text)) => r matches Err((c, t)) && c == code && t@ == text,
            },
    {
        if self.size.0 == 0 && self.anchor & A_ACROSS != A_ACROSS {
            return Err((INVALID_SIZE, "width 0 needs both left and right anchors"));
        }
        if self.size.1 == 0 && self.anchor & A_DOWN != A_DOWN {
            return Err((INVALID_SIZE, "height 0 needs both top and bottom anchors"));
        }
        if self.exclusive_edge != 0 {
            if !one_edge(self.exclusive_edge) {
                return Err((INVALID_EXCLUSIVE_EDGE, "exclusive edge must be one edge"));
            }
            if self.anchor & self.exclusive_edge == 0 {
                return Err((INVALID_EXCLUSIVE_EDGE, "exclusive edge must be anchored"));
            }
        }
        Ok(())
    }

    /// The edge that a positive zone claims; without one the zone counts for nothing.
    pub fn exclusive_edge(&self) -> (r: Option<u32>)
        ensures
            r == claimed_edge(*self),
    {
        if self.exclusive <= 0 {
            return None;
        }
        if self.exclusive_edge != 0 {
            return Some(self.exclusive_edge);
        }
        let across: u32 = self.anchor & A_ACROSS;
        let down: u32 = self.anchor & A_DOWN;
        if across == A_LEFT && (down == 0 || down == A_DOWN) {
            Some(A_LEFT)
        } else if across == A_RIGHT && (down == 0 || down == A_DOWN) {
            Some(A_RIGHT)
        } else if down == A_TOP && (across == 0 || across == A_ACROSS) {
            Some(A_TOP)
        } else if down == A_BOTTOM && (across == 0 || across == A_ACROSS) {
            Some(A_BOTTOM)
        } else {
            None
        }
    }
}

fn one_edge(e: u32) -> (r: bool)
    ensures
        r == is_edge(e),
{
    e == A_TOP || e == A_BOTTOM || e == A_LEFT || e == A_RIGHT
}

pub struct LayerSurface {
    /// identity, never reused
    pub uid: u64,
    /// output slot: that of the output it was made for, wherever that moves
    pub output: usize,
    pub id: ObjectId,
    pub client: u32,
    pub version: u32,
    /// identity of the surface
    pub surface: u64,
    /// the surface shows a buffer
    pub shows: bool,
    /// the surface is destroyed
    pub destroyed: bool,
    pub pending: LayerState,
    pub current: LayerState,
    /// the layer asked for at creation; unmapping goes back to it
    pub created_layer: u32,
    pub next_serial: u32,
    pub last_sent: u32,
    pub acked: u32,
    pub ack_floor: u32,
    pub scheduled: bool,
    pub configured: bool,
    /// last configured size; the same one again would only feed a loop
    pub last_cfg: Option<(u32, u32)>,
    /// where the arranger put it
    pub rect: Rect,
    /// mapped, in the arrangement
    pub linked: bool,
    pub closed: bool,
    pub popups: Vec<ObjectId>,
}

/// How a request for a layer surface ends.
pub enum LayerGiven {
    /// Refused, nothing changed.
    Refused,
    /// Refused, but the surface has the layer role now.
    RoleOnly,
    /// The surface has the role, and this drives it.
    Made(LayerSurface),
}

/// What a request for a layer surface breaks, and whether the role was given first.
pub open spec fn surface_fault(s: SurfaceFacts, layer: u32) -> Option<(u32, Seq<char>, bool)> {
    if layer > OVERLAY {
        Some((INVALID_LAYER, "invalid layer"@, false))
    } else if s.live_role {
        Some((ROLE, "the surface already has a role object"@, false))
    } else if s.other_role is Some {
        Some((ROLE, "the surface already has the "@ + (s.other_role->0)@ + " role"@, false))
    } else if s.has_buffer {
        Some((ALREADY_CONSTRUCTED, "the surface already has a buffer attached or committed"@, true))
    } else {
        None
    }
}

/// A layer surface as it starts out.
pub open spec fn layer_starts(l: LayerSurface, sh: LayerShell, id: ObjectId, surface: u64, output: usize, layer: u32) -> bool {
    &&& l.output == output
    &&& l.id == id
    &&& l.client == sh.client
    &&& l.version == sh.version
    &&& l.surface == surface
    &&& !l.shows
    &&& !l.destroyed
    &&& l.pending == default_state(layer)
    &&& l.current == default_state(layer)
    &&& l.created_layer == layer
    &&& l.next_serial == 1
    &&& l.last_sent == 0
    &&& l.acked == 0
    &&& l.ack_floor == 0
    &&& !l.scheduled
    &&& !l.configured
    &&& l.last_cfg is None
    &&& l.rect == (Rect { x1: 0, y1: 0, x2: 0, y2: 0 })
    &&& !l.linked
    &&& !l.closed
    &&& l.popups@.len() == 0
}

/// The slot a new layer surface goes to: that of the named output, where it is lit,
/// else the focused one.
pub open spec fn slot_for(output: ObjectId, lit: Option<usize>, focused: usize) -> usize {
    if output.0 == 0 {
        focused
    } else {
        match lit {
            Some(k) => k,
            None => focused,
        }
    }
}

impl LayerShell {
    /// A layer surface. `surface` is what the surface id names; `lit` is the slot of
    /// the output that the output id names, `focused` the focused output's.
    pub fn get_layer_surface(
        &self,
        out: &mut Out,
        id: ObjectId,
        uid: u64,
        surface_id: ObjectId,
        surface: Option<SurfaceFacts>,
        output: ObjectId,
        lit: Option<usize>,
        focused: usize,
        layer: u32,
    ) -> (r: LayerGiven)
        ensures
            match surface {
                None => r is Refused && told_invalid(*old(out), *final(out), self.client, surface_id),
                Some(s) => match surface_fault(s, layer) {
                    Some((code, text, given)) => {
                        &&& refused(*old(out), *final(out), self.client, self.id, code, text)
                        &&& given ==> r is RoleOnly
                        &&& !given ==> r is Refused
                    },
                    None => {
                        &&& final(out).sent@ == old(out).sent@
                        &&& r matches LayerGiven::Made(l) && l.uid == uid && l.wf() && layer_starts(
                            l,
                            *self,
                            id,
                            s.uid,
                            slot_for(output, lit, focused),
                            layer,
                        )
                    },
                },
            },
    {
        let s: SurfaceFacts = match surface {
            None => {
                out.invalid_object(self.client, surface_id);
                return LayerGiven::Refused;
            },
            Some(s) => s,
        };
        if layer > OVERLAY {
            out.protocol_error(self.client, self.id, INVALID_LAYER, "invalid layer");
            return LayerGiven::Refused;
        }
        if s.live_role {
            out.protocol_error(self.client, self.id, ROLE, "the surface already has a role object");
            return LayerGiven::Refused;
        }
        match &s.other_role {
            Some(name) => {
                let text: String = "the surface already has the ".to_owned().concat(name.as_str()).concat(" role");
                out.protocol_error(self.client, self.id, ROLE, text.as_str());
                return LayerGiven::Refused;
            },
            None => {},
        }
        if s.has_buffer {
            out.protocol_error(
                self.client,
                self.id,
                ALREADY_CONSTRUCTED,
                "the surface already has a buffer attached or committed",
            );
            return LayerGiven::RoleOnly;
        }
        let slot: usize = if output.0 == 0 {
            focused
        } else {
            match lit {
                Some(k) => k,
                None => focused,
            }
        };
        LayerGiven::Made(
            LayerSurface {
                uid,
                output: slot,
                id,
                client: self.client,
                version: self.version,
                surface: s.uid,
                shows: false,
                destroyed: false,
                pending: LayerState::new(layer),
                current: LayerState::new(layer),
                created_layer: layer,
                next_serial: 1,
                last_sent: 0,
                acked: 0,
                ack_floor: 0,
                scheduled: false,
                configured: false,
                last_cfg: None,
                rect: Rect { x1: 0, y1: 0, x2: 0, y2: 0 },
                linked: false,
                closed: false,
                popups: Vec::new(),
            },
        )
    }
}

pub open spec fn at_most(v: u32, top: u32) -> u32 {
    if v <= top { v } else { top }
}

/// A zone in range: from minus one to 65535.
pub open spec fn zone_in_range(v: i32) -> i32 {
    if v < -1 {
        (-1) as i32
    } else if v > 65535 {
        65535
    } else {
        v
    }
}

pub open spec fn not_popup(id: ObjectId) -> spec_fn(ObjectId) -> bool {
    |p: ObjectId| p != id
}

/// The serial that follows another: one more, and past the last one the first. Zero is none.
pub open spec fn serial_after(serial: u32) -> u32 {
    if serial == u32::MAX { 1 } else { (serial + 1) as u32 }
}

impl LayerSurface {
    pub open spec fn wf(self) -> bool {
        &&& self.pending.wf()
        &&& self.current.wf()
        &&& self.created_layer <= OVERLAY
        &&& self.rect.wf()
        &&& self.next_serial == serial_after(self.last_sent)
    }

    pub open spec fn is_mapped(self) -> bool {
        self.linked && self.shows
    }

    pub fn mapped(&self) -> (r: bool)
        ensures
            r == self.is_mapped(),
    {
        self.linked && self.shows
    }

    /// Tells the client that the surface will not be shown again, once.
    pub fn send_closed(&mut self, out: &mut Out)
        ensures
            *final(self) == (LayerSurface { closed: true, ..*old(self) }),
            final(out).sent@ == (if old(self).closed {
                old(out).sent@
            } else {
                old(out).sent@.push(sent(old(self).client, old(self).id, Event::LayerClosed))
            }),
    {
        if !self.closed {
            self.closed = true;
            out.event(self.client, self.id, Event::LayerClosed);
        }
    }

    /// The popups, oldest first.
    pub fn for_each_popup(&self) -> (r: Vec<ObjectId>)
        ensures
            r@ == self.popups@,
    {
        let mut v: Vec<ObjectId> = Vec::new();
        for i in 0..self.popups.len()
            invariant
                v@ == self.popups@.take(i as int),
        {
            v.push(self.popups[i]);
            assert(v@ =~= self.popups@.take(i + 1));
        }
        assert(self.popups@.take(self.popups@.len() as int) =~= self.popups@);
        v
    }

    /// The popups, newest first.
    pub fn for_each_popup_rev(&self) -> (r: Vec<ObjectId>)
        ensures
            r@ == self.popups@.reverse(),
    {
        let mut v: Vec<ObjectId> = Vec::new();
        let n: usize = self.popups.len();
        for i in 0..n
            invariant
                n == self.popups@.len(),
                v@ == self.popups@.reverse().take(i as int),
        {
            v.push(self.popups[n - 1 - i]);
            assert(v@ =~= self.popups@.reverse().take(i + 1));
        }
        assert(self.popups@.reverse().take(n as int) =~= self.popups@.reverse());
        v
    }

    pub fn unlink_popup(&mut self, id: ObjectId)
        ensures
            final(self).popups@ == old(self).popups@.filter(not_popup(id)),
            *final(self) == (LayerSurface { popups: final(self).popups, ..*old(self) }),
    {
        retain(
            &mut self.popups,
            |p: &ObjectId| -> (b: bool) ensures b == (*p != id) { p.0 != id.0 },
            Ghost(not_popup(id)),
        );
    }

    pub fn set_size(&mut self, width: u32, height: u32)
        requires
            old(self).wf(),
        ensures
            final(self).wf(),
            *final(self) == (LayerSurface {
                pending: LayerState { size: (at_most(width, 65535), at_most(height, 65535)), ..old(self).pending },
                ..*old(self)
            }),
    {
        let w: u32 = if width <= 65535 { width } else { 65535 };
        let h: u32 = if height <= 65535 { height } else { 65535 };
        self.pending.size = (w, h);
    }

    pub fn set_anchor(&mut self, out: &mut Out, anchor: u32)
        requires
            old(self).wf(),
        ensures
            final(self).wf(),
            anchor > 15 ==> *final(self) == *old(self) && refused(
                *old(out),
                *final(out),
                old(self).client,
                old(self).id,
                INVALID_ANCHOR,
                "invalid anchor bits"@,
            ),
            anchor <= 15 ==> final(out).sent@ == old(out).sent@ && *final(self) == (LayerSurface {
                pending: LayerState { anchor, ..old(self).pending },
                ..*old(self)
            }),
    {
        if anchor > 15 {
            out.protocol_error(self.client, self.id, INVALID_ANCHOR, "invalid anchor bits");
            return;
        }
        self.pending.anchor = anchor;
    }

    pub fn set_exclusive_zone(&mut self, zone: i32)
        requires
            old(self).wf(),
        ensures
            final(self).wf(),
            *final(self) == (LayerSurface {
                pending: LayerState { exclusive: zone_in_range(zone), ..old(self).pending },
                ..*old(self)
            }),
    {
        self.pending.exclusive = if zone < -1 {
            -1
        } else if zone > 65535 {
            65535
        } else {
            zone
        };
    }

    pub fn set_margin(&mut self, margin: Margin)
        requires
            old(self).wf(),
        ensures
            final(self).wf(),
            *final(self) == (LayerSurface { pending: LayerState { margin, ..old(self).pending }, ..*old(self) }),
    {
        self.pending.margin = margin;
    }

    /// Older clients speak in booleans: anything but zero means exclusive.
    pub fn set_keyboard_interactivity(&mut self, out: &mut Out, ki: u32)
        requires
            old(self).wf(),
        ensures
            final(self).wf(),
            old(self).version >= 4 && ki > KI_ON_DEMAND ==> *final(self) == *old(self) && refused(
                *old(out),
                *final(out),
                old(self).client,
                old(self).id,
                INVALID_KI,
                "invalid keyboard interactivity"@,
            ),
            !(old(self).version >= 4 && ki > KI_ON_DEMAND) ==> final(out).sent@ == old(out).sent@ && *final(self) == (
            LayerSurface {
                pending: LayerState {
                    ki: if old(self).version < 4 && ki != 0 { KI_EXCLUSIVE } else { ki },
                    ..old(self).pending
                },
                ..*old(self)
            }),
    {
        let value: u32 = if self.version < 4 {
            if ki == 0 {
                KI_NONE
            } else {
                KI_EXCLUSIVE
            }
        } else {
            if ki > KI_ON_DEMAND {
                out.protocol_error(self.client, self.id, INVALID_KI, "invalid keyboard interactivity");
                return;
            }
            ki
        };
        self.pending.ki = value;
    }

    /// Takes a popup that was made without a parent; `found` says whether the id names
    /// a popup, and whether that has a parent. `true`: it has this one now.
    pub fn get_popup(&mut self, out: &mut Out, popup: ObjectId, found: Option<bool>) -> (r: bool)
        ensures
            r == (found == Some(false)),
            found is None ==> *final(self) == *old(self) && told_invalid(
                *old(out),
                *final(out),
                old(self).client,
                popup,
            ),
            found == Some(true) ==> *final(self) == *old(self) && refused(
                *old(out),
                *final(out),
                old(self).client,
                ObjectId(1),
                IMPLEMENTATION,
                "the popup already has a parent"@,
            ),
            r ==> {
                &&& final(self).popups@ == old(self).popups@.push(popup)
                &&& *final(self) == (LayerSurface { popups: final(self).popups, ..*old(self) })
                &&& final(out).sent@ == old(out).sent@
            },
    {
        match found {
            None => {
                out.invalid_object(self.client, popup);
                false
            },
            Some(has_parent) => if has_parent {
                out.protocol_error(self.client, ObjectId(1), IMPLEMENTATION, "the popup already has a parent");
                false
            } else {
                self.popups.push(popup);
                true
            },
        }
    }

    /// Acknowledges a configure; serials only go up.
    pub fn ack_configure(&mut self, out: &mut Out, serial: u32)
        ensures
            serial == 0 || serial > old(self).last_sent ==> *final(self) == *old(self) && refused(
                *old(out),
                *final(out),
                old(self).client,
                old(self).id,
                INVALID_SURFACE_STATE,
                "ack of a serial that was never sent"@,
            ),
            0 < serial <= old(self).last_sent && serial <= old(self).acked ==> *final(self) == *old(self) && refused(
                *old(out),
                *final(out),
                old(self).client,
                old(self).id,
                INVALID_SURFACE_STATE,
                "ack serials must increase"@,
            ),
            0 < serial <= old(self).last_sent && serial > old(self).acked ==> *final(self) == (LayerSurface {
                acked: serial,
                ..*old(self)
            }) && final(out).sent@ == old(out).sent@,
    {
        if serial == 0 || serial > self.last_sent {
            out.protocol_error(
                self.client,
                self.id,
                INVALID_SURFACE_STATE,
                "ack of a serial that was never sent",
            );
            return;
        }
        if serial <= self.acked {
            out.protocol_error(self.client, self.id, INVALID_SURFACE_STATE, "ack serials must increase");
            return;
        }
        self.acked = serial;
    }

    pub fn set_layer(&mut self, out: &mut Out, layer: u32)
        requires
            old(self).wf(),
        ensures
            final(self).wf(),
            layer > OVERLAY ==> *final(self) == *old(self) && refused(
                *old(out),
                *final(out),
                old(self).client,
                old(self).id,
                INVALID_LAYER,
                "invalid layer"@,
            ),
            layer <= OVERLAY ==> final(out).sent@ == old(out).sent@ && *final(self) == (LayerSurface {
                pending: LayerState { layer, ..old(self).pending },
                ..*old(self)
            }),
    {
        if layer > OVERLAY {
            out.protocol_error(self.client, self.id, INVALID_LAYER, "invalid layer");
            return;
        }
        self.pending.layer = layer;
    }

    pub fn set_exclusive_edge(&mut self, out: &mut Out, edge: u32)
        requires
            old(self).wf(),
        ensures
            final(self).wf(),
            edge != 0 && !is_edge(edge) ==> *final(self) == *old(self) && refused(
                *old(out),
                *final(out),
                old(self).client,
                old(self).id,
                INVALID_EXCLUSIVE_EDGE,
                "invalid exclusive edge"@,
            ),
            edge == 0 || is_edge(edge) ==> final(out).sent@ == old(out).sent@ && *final(self) == (LayerSurface {
                pending: LayerState { exclusive_edge: edge, ..old(self).pending },
                ..*old(self)
            }),
    {
        if edge != 0 && !one_edge(edge) {
            out.protocol_error(self.client, self.id, INVALID_EXCLUSIVE_EDGE, "invalid exclusive edge");
            return;
        }
        self.pending.exclusive_edge = edge;
    }

    /// Whether a commit may be applied. A closed surface is dead air; a buffer needs
    /// an acknowledged configure of this cycle.
    pub fn commit_requested(&self, out: &mut Out, attaching: bool) -> (r: bool)
        ensures
            r == (!self.closed && !(attaching && self.acked <= self.ack_floor)),
            r || self.closed ==> final(out).sent@ == old(out).sent@,
            !r && !self.closed ==> refused(
                *old(out),
                *final(out),
                self.client,
                self.id,
                INVALID_SURFACE_STATE,
                "buffer attached before the initial configure was acked"@,
            ),
    {
        if self.closed {
            return false;
        }
        if attaching && self.acked <= self.ack_floor {
            out.protocol_error(
                self.client,
                self.id,
                INVALID_SURFACE_STATE,
                "buffer attached before the initial configure was acked",
            );
            return false;
        }
        true
    }

    /// The pending state becomes current, if it is sound.
    pub fn before_apply(&mut self, out: &mut Out)
        requires
            old(self).wf(),
        ensures
            final(self).wf(),
            match state_fault(old(self).pending) {
                Some((code, text)) => *final(self) == *old(self) && refused(
                    *old(out),
                    *final(out),
                    old(self).client,
                    old(self).id,
                    code,
                    text,
                ),
                None => *final(self) == (LayerSurface { current: old(self).pending, ..*old(self) }) && final(out).sent@ == old(out).sent@,
            },
    {
        match self.pending.validate() {
            Err((code, text)) => {
                out.protocol_error(self.client, self.id, code, text);
            },
            Ok(()) => {
                self.current = self.pending;
            },
        }
    }

    /// Back to the defaults of creation; the configure cycle starts anew. The popups
    /// are dismissed.
    fn reset_after_unmap(&mut self)
        requires
            old(self).wf(),
        ensures
            final(self).wf(),
            *final(self) == unmapped(*old(self)),
    {
        let layer: u32 = self.created_layer;
        self.pending = LayerState::new(layer);
        self.current = LayerState::new(layer);
        self.configured = false;
        self.ack_floor = self.last_sent;
        self.last_cfg = None;
    }

    /// The client is gone.
    pub fn break_loops(&mut self)
        ensures
            final(self).popups@.len() == 0,
            *final(self) == (LayerSurface { linked: false, popups: final(self).popups, ..*old(self) }),
    {
        self.linked = false;
        self.popups = Vec::new();
    }
}

/// A layer surface after it was unmapped.
pub open spec fn unmapped(l: LayerSurface) -> LayerSurface {
    LayerSurface {
        pending: default_state(l.created_layer),
        current: default_state(l.created_layer),
        configured: false,
        ack_floor: l.last_sent,
        last_cfg: None,
        ..l
    }
}

/// A box in plane coordinates, of any size.
pub ghost struct Bounds {
    pub x1: int,
    pub y1: int,
    pub x2: int,
    pub y2: int,
}

pub open spec fn bounds(r: Rect) -> Bounds {
    Bounds { x1: r.x1 as int, y1: r.y1 as int, x2: r.x2 as int, y2: r.y2 as int }
}

pub open spec fn in_i32(v: int) -> bool {
    i32::MIN <= v <= i32::MAX
}

/// The corners fit machine integers.
pub open spec fn in_range(b: Bounds) -> bool {
    in_i32(b.x1) && in_i32(b.y1) && in_i32(b.x2) && in_i32(b.y2)
}

/// The corners and the spans fit machine integers.
pub open spec fn is_rect(b: Bounds) -> bool {
    in_range(b) && b.x1 <= b.x2 && b.y1 <= b.y2 && b.x2 - b.x1 <= i32::MAX && b.y2 - b.y1 <= i32::MAX
}

/// Half of a length, towards zero.
pub open spec fn half(v: int) -> int {
    if v >= 0 { v / 2 } else { -((-v) / 2) }
}

pub open spec fn at_least_one(v: int) -> int {
    if v >= 1 { v } else { 1 }
}

/// What is left of a box inside the margins of the anchored edges.
pub open spec fn inside(s: LayerState, b: Bounds) -> Bounds {
    Bounds {
        x1: if s.anchor & A_LEFT != 0 { b.x1 + s.margin.left } else { b.x1 },
        y1: if s.anchor & A_TOP != 0 { b.y1 + s.margin.top } else { b.y1 },
        x2: if s.anchor & A_RIGHT != 0 { b.x2 - s.margin.right } else { b.x2 },
        y2: if s.anchor & A_BOTTOM != 0 { b.y2 - s.margin.bottom } else { b.y2 },
    }
}

/// Where something lies between two edges: it hugs one of them, or is centered. A size of
/// zero spans the room.
pub open spec fn along(lo: int, hi: int, size: u32, low: bool, high: bool) -> (int, int) {
    let n = at_least_one(if size > 0 { size as int } else { hi - lo });
    let at = if low {
        lo
    } else if high {
        hi - n
    } else {
        lo + half(hi - lo - n)
    };
    (at, at + n)
}

/// Where a surface of that state goes in a box: at the anchored edge, or centered.
/// Negative margins may push it out of the box.
pub open spec fn placed(s: LayerState, avail: Bounds) -> Bounds {
    let a = inside(s, avail);
    let (x1, x2) = along(a.x1, a.x2, s.size.0, s.anchor & A_ACROSS == A_LEFT, s.anchor & A_ACROSS == A_RIGHT);
    let (y1, y2) = along(a.y1, a.y2, s.size.1, s.anchor & A_DOWN == A_TOP, s.anchor & A_DOWN == A_BOTTOM);
    Bounds { x1, y1, x2, y2 }
}

fn halved(v: i64) -> (r: i64)
    requires
        -0x10_0000_0000 <= v <= 0x10_0000_0000,
    ensures
        r == half(v as int),
{
    if v >= 0 {
        v / 2
    } else {
        -((-v) / 2)
    }
}

fn stretch(lo: i64, hi: i64, size: u32, low: bool, high: bool) -> (r: (i64, i64))
    requires
        -0x2_0000_0000 <= lo <= 0x2_0000_0000,
        -0x2_0000_0000 <= hi <= 0x2_0000_0000,
    ensures
        (r.0 as int, r.1 as int) == along(lo as int, hi as int, size, low, high),
{
    let room: i64 = if size > 0 { size as i64 } else { hi - lo };
    let n: i64 = if room >= 1 { room } else { 1 };
    let at: i64 = if low {
        lo
    } else if high {
        hi - n
    } else {
        lo + halved(hi - lo - n)
    };
    (at, at + n)
}

/// Places a surface of that state in a box.
pub fn place(s: LayerState, avail: Rect) -> (r: Rect)
    requires
        s.wf(),
        is_rect(placed(s, bounds(avail))),
    ensures
        bounds(r) == placed(s, bounds(avail)),
        r.wf(),
{
    let mut x1: i64 = avail.x1 as i64;
    let mut y1: i64 = avail.y1 as i64;
    let mut x2: i64 = avail.x2 as i64;
    let mut y2: i64 = avail.y2 as i64;
    if s.anchor & A_LEFT != 0 {
        x1 = x1 + s.margin.left as i64;
    }
    if s.anchor & A_RIGHT != 0 {
        x2 = x2 - s.margin.right as i64;
    }
    if s.anchor & A_TOP != 0 {
        y1 = y1 + s.margin.top as i64;
    }
    if s.anchor & A_BOTTOM != 0 {
        y2 = y2 - s.margin.bottom as i64;
    }
    let (from_x, to_x) = stretch(x1, x2, s.size.0, s.anchor & A_ACROSS == A_LEFT, s.anchor & A_ACROSS == A_RIGHT);
    let (from_y, to_y) = stretch(y1, y2, s.size.1, s.anchor & A_DOWN == A_TOP, s.anchor & A_DOWN == A_BOTTOM);
    Rect { x1: from_x as i32, y1: from_y as i32, x2: to_x as i32, y2: to_y as i32 }
}

/// What a surface of that state leaves of a box: its zone and margin come off the
/// edge it claims.
pub open spec fn claim(b: Bounds, s: LayerState) -> Bounds {
    match claimed_edge(s) {
        None => b,
        Some(e) => if e == A_TOP {
            Bounds { y1: b.y1 + s.exclusive + s.margin.top, ..b }
        } else if e == A_BOTTOM {
            Bounds { y2: b.y2 - (s.exclusive + s.margin.bottom), ..b }
        } else if e == A_LEFT {
            Bounds { x1: b.x1 + s.exclusive + s.margin.left, ..b }
        } else {
            Bounds { x2: b.x2 - (s.exclusive + s.margin.right), ..b }
        },
    }
}

fn claimed(r: Rect, s: LayerState, edge: u32) -> (t: Rect)
    requires
        s.wf(),
        claimed_edge(s) == Some(edge),
        in_range(claim(bounds(r), s)),
    ensures
        bounds(t) == claim(bounds(r), s),
{
    let zone: i64 = s.exclusive as i64;
    let mut t: Rect = r;
    if edge == A_TOP {
        t.y1 = (r.y1 as i64 + zone + s.margin.top as i64) as i32;
    } else if edge == A_BOTTOM {
        t.y2 = (r.y2 as i64 - (zone + s.margin.bottom as i64)) as i32;
    } else if edge == A_LEFT {
        t.x1 = (r.x1 as i64 + zone + s.margin.left as i64) as i32;
    } else {
        t.x2 = (r.x2 as i64 - (zone + s.margin.right as i64)) as i32;
    }
    t
}

/// The surface takes part in the arrangement of a layer of an output.
pub open spec fn counts(l: LayerSurface, slot: int, layer: u32) -> bool {
    l.linked && l.output == slot && l.current.layer == layer
}

/// What the first `n` surfaces leave of a box, of those on a layer of an output.
pub open spec fn walk(list: Seq<LayerSurface>, slot: int, layer: u32, n: nat, b: Bounds) -> Bounds
    decreases n,
{
    if n == 0 || n > list.len() {
        b
    } else {
        let v = walk(list, slot, layer, (n - 1) as nat, b);
        if counts(list[n - 1], slot, layer) {
            claim(v, list[n - 1].current)
        } else {
            v
        }
    }
}

/// What the higher layers leave for a layer.
pub open spec fn start_of(list: Seq<LayerSurface>, slot: int, layer: u32, out: Bounds) -> Bounds
    decreases OVERLAY - layer,
{
    if layer >= OVERLAY {
        out
    } else {
        walk(list, slot, (layer + 1) as u32, list.len(), start_of(list, slot, (layer + 1) as u32, out))
    }
}

/// What all layers leave of an output.
pub open spec fn left_over(list: Seq<LayerSurface>, slot: int, out: Bounds) -> Bounds {
    walk(list, slot, BACKGROUND, list.len(), start_of(list, slot, BACKGROUND, out))
}

/// The tiling area: what is left over, or the whole output when nothing is.
pub open spec fn usable_area(list: Seq<LayerSurface>, slot: int, out: Bounds) -> Bounds {
    let b = left_over(list, slot, out);
    if b.x2 - b.x1 < 1 || b.y2 - b.y1 < 1 {
        out
    } else {
        b
    }
}

/// Where a mapped surface goes: one that claims an edge into what those before it
/// left, one with a zone of minus one into the whole output, any other into the
/// tiling area.
pub open spec fn spot(list: Seq<LayerSurface>, slot: int, out: Bounds, i: int) -> Bounds {
    let s = list[i].current;
    if claimed_edge(s) is Some {
        placed(s, walk(list, slot, s.layer, i as nat, start_of(list, slot, s.layer, out)))
    } else if s.exclusive >= 0 {
        placed(s, usable_area(list, slot, out))
    } else {
        placed(s, out)
    }
}

/// Everything in the arrangement of an output fits machine integers.
pub open spec fn slot_fits(list: Seq<LayerSurface>, slot: int, out: Bounds) -> bool {
    &&& forall|layer: u32, n: nat|
        layer <= OVERLAY && n <= list.len() ==> in_range(
            #[trigger] walk(list, slot, layer, n, start_of(list, slot, layer, out)),
        )
    &&& forall|i: int|
        0 <= i < list.len() && list[i].linked && list[i].output == slot ==> is_rect(#[trigger] spot(list, slot, out, i))
}

pub open spec fn all_wf(list: Seq<LayerSurface>) -> bool {
    forall|i: int| 0 <= i < list.len() ==> (#[trigger] list[i]).wf()
}

fn walk_layer(list: &Vec<LayerSurface>, slot: usize, layer: u32, out: Rect, from: Rect, new: &mut Vec<Rect>) -> (r: Rect)
    requires
        all_wf(list@),
        slot_fits(list@, slot as int, bounds(out)),
        layer <= OVERLAY,
        bounds(from) == start_of(list@, slot as int, layer, bounds(out)),
        old(new)@.len() == list@.len(),
    ensures
        bounds(r) == walk(list@, slot as int, layer, list@.len(), bounds(from)),
        final(new)@.len() == list@.len(),
        forall|i: int|
            0 <= i < list@.len() ==> if counts(list@[i], slot as int, layer) && claimed_edge(list@[i].current) is Some {
                bounds(#[trigger] final(new)@[i]) == spot(list@, slot as int, bounds(out), i) && final(new)@[i].wf()
            } else {
                final(new)@[i] == old(new)@[i]
            },
{
    let mut usable: Rect = from;
    let n: usize = list.len();
    let ghost was = new@;
    for i in 0..n
        invariant
            n == list@.len(),
            was == old(new)@,
            all_wf(list@),
            slot_fits(list@, slot as int, bounds(out)),
            layer <= OVERLAY,
            bounds(from) == start_of(list@, slot as int, layer, bounds(out)),
            bounds(usable) == walk(list@, slot as int, layer, i as nat, bounds(from)),
            new@.len() == n,
            forall|j: int| i <= j < n ==> new@[j] == was[j],
            forall|j: int|
                0 <= j < i ==> if counts(list@[j], slot as int, layer) && claimed_edge(list@[j].current) is Some {
                    bounds(#[trigger] new@[j]) == spot(list@, slot as int, bounds(out), j) && new@[j].wf()
                } else {
                    new@[j] == was[j]
                },
    {
        let l: &LayerSurface = &list[i];
        assert(in_range(walk(list@, slot as int, layer, (i + 1) as nat, start_of(list@, slot as int, layer, bounds(out)))));
        assert(list@[i as int].wf());
        if l.linked && l.output == slot && l.current.layer == layer {
            match l.current.exclusive_edge() {
                None => {},
                Some(edge) => {
                    assert(is_rect(spot(list@, slot as int, bounds(out), i as int)));
                    let r: Rect = place(l.current, usable);
                    new.set(i, r);
                    usable = claimed(usable, l.current, edge);
                },
            }
        }
    }
    usable
}

/// Where everything of an output goes; `new` gets the rects, the result is the tiling
/// area.
fn arrange_slot(list: &Vec<LayerSurface>, slot: usize, out: Rect, new: &mut Vec<Rect>) -> (r: Rect)
    requires
        all_wf(list@),
        slot_fits(list@, slot as int, bounds(out)),
        old(new)@.len() == list@.len(),
    ensures
        bounds(r) == usable_area(list@, slot as int, bounds(out)),
        final(new)@.len() == list@.len(),
        forall|i: int|
            0 <= i < list@.len() ==> if list@[i].linked && list@[i].output == slot {
                bounds(#[trigger] final(new)@[i]) == spot(list@, slot as int, bounds(out), i) && final(new)@[i].wf()
            } else {
                final(new)@[i] == old(new)@[i]
            },
{
    let ghost was = new@;
    proof {
        reveal_with_fuel(start_of, 5);
    }
    let u3: Rect = walk_layer(list, slot, OVERLAY, out, out, new);
    let u2: Rect = walk_layer(list, slot, TOP, out, u3, new);
    let u1: Rect = walk_layer(list, slot, BOTTOM, out, u2, new);
    let u0: Rect = walk_layer(list, slot, BACKGROUND, out, u1, new);
    let mut usable: Rect = u0;
    if (u0.x2 as i64 - u0.x1 as i64) < 1 || (u0.y2 as i64 - u0.y1 as i64) < 1 {
        usable = out;
    }
    let n: usize = list.len();
    for i in 0..n
        invariant
            n == list@.len(),
            was == old(new)@,
            all_wf(list@),
            slot_fits(list@, slot as int, bounds(out)),
            bounds(usable) == usable_area(list@, slot as int, bounds(out)),
            new@.len() == n,
            forall|j: int|
                #![trigger new@[j]]
                0 <= j < n && list@[j].linked && list@[j].output == slot && (j < i || claimed_edge(list@[j].current)
                    is Some) ==> bounds(new@[j]) == spot(list@, slot as int, bounds(out), j) && new@[j].wf(),
            forall|j: int|
                #![trigger new@[j]]
                0 <= j < n && !(list@[j].linked && list@[j].output == slot) ==> new@[j] == was[j],
    {
        let l: &LayerSurface = &list[i];
        assert(list@[i as int].wf());
        if l.linked && l.output == slot {
            match l.current.exclusive_edge() {
                Some(_) => {},
                None => {
                    assert(is_rect(spot(list@, slot as int, bounds(out), i as int)));
                    let base: Rect = if l.current.exclusive >= 0 { usable } else { out };
                    let r: Rect = place(l.current, base);
                    new.set(i, r);
                },
            }
        }
    }
    usable
}

/// All layer surfaces. Those in the arrangement stand in mapping order.
pub struct Layers {
    pub list: Vec<LayerSurface>,
    /// the rect of each output slot; one when headless
    pub rects: Vec<Rect>,
    /// what the arranger left over of each
    pub usable: Vec<Rect>,
    /// the whole glass, for surfaces on a slot that is gone
    pub extent: Rect,
    /// surfaces that a configure is scheduled for
    pub queue: Vec<u64>,
}

/// The identities among the first `n` that get a configure scheduled.
pub open spec fn newly_queued(list: Seq<LayerSurface>, n: nat) -> Seq<u64>
    decreases n,
{
    if n == 0 || n > list.len() {
        Seq::empty()
    } else {
        let front = newly_queued(list, (n - 1) as nat);
        if list[n - 1].linked && !list[n - 1].scheduled {
            front.push(list[n - 1].uid)
        } else {
            front
        }
    }
}

/// `b` is `a` with `list` arranged: mapped surfaces have their place and a configure
/// scheduled, outputs their tiling area.
pub open spec fn arranged(a: Layers, list: Seq<LayerSurface>, b: Layers) -> bool {
    &&& b.rects == a.rects
    &&& b.extent == a.extent
    &&& b.usable@.len() == a.usable@.len()
    &&& arranged_on(a.rects@, list, b)
    &&& b.queue@ == a.queue@ + newly_queued(list, list.len())
}

/// `b` holds `list` arranged on these rects.
pub open spec fn arranged_on(rects: Seq<Rect>, list: Seq<LayerSurface>, b: Layers) -> bool {
    &&& b.list@.len() == list.len()
    &&& forall|i: int|
        0 <= i < list.len() ==> {
            let l = list[i];
            let m = #[trigger] b.list@[i];
            &&& m == (LayerSurface { rect: m.rect, scheduled: l.scheduled || l.linked, ..l })
            &&& m.rect.wf()
            &&& if l.linked && l.output < rects.len() {
                bounds(m.rect) == spot(list, l.output as int, bounds(rects[l.output as int]), i)
            } else {
                m.rect == l.rect
            }
        }
    &&& forall|k: int|
        0 <= k < rects.len() ==> bounds(#[trigger] b.usable@[k]) == usable_area(list, k, bounds(rects[k]))
}

/// A tiling area changed.
pub open spec fn areas_differ(a: Layers, b: Layers) -> bool {
    exists|k: int| 0 <= k < a.usable@.len() && #[trigger] b.usable@[k] != a.usable@[k]
}

/// The arrangement of a list fits machine integers.
pub open spec fn list_fits(rects: Seq<Rect>, list: Seq<LayerSurface>) -> bool {
    forall|k: int| 0 <= k < rects.len() ==> #[trigger] slot_fits(list, k, bounds(rects[k]))
}

impl Layers {
    pub open spec fn wf(self) -> bool {
        &&& self.rects@.len() == self.usable@.len()
        &&& self.rects@.len() >= 1
        &&& all_wf(self.list@)
    }

    /// The arrangement fits machine integers.
    pub open spec fn fits(self) -> bool {
        list_fits(self.rects@, self.list@)
    }

    /// The rect of a slot; the whole glass when there is none.
    pub fn slot_rect(&self, slot: usize) -> (r: Rect)
        ensures
            r == self.slot_rect_spec(slot),
    {
        if slot < self.rects.len() {
            self.rects[slot]
        } else {
            self.extent
        }
    }

    pub open spec fn slot_rect_spec(self, slot: usize) -> Rect {
        if slot < self.rects@.len() { self.rects@[slot as int] } else { self.extent }
    }

    pub open spec fn usable_of_spec(self, slot: usize) -> Rect {
        if slot < self.usable@.len() { self.usable@[slot as int] } else { self.usable@[0] }
    }

    /// What the arranger left over of a slot; of the first one when there is none.
    pub fn usable_of(&self, slot: usize) -> (r: Rect)
        requires
            self.wf(),
        ensures
            r == self.usable_of_spec(slot),
    {
        if slot < self.usable.len() {
            self.usable[slot]
        } else {
            self.usable[0]
        }
    }

    /// Schedules a configure, once until it is flushed.
    pub fn schedule_configure(&mut self, k: usize)
        requires
            k < old(self).list@.len(),
        ensures
            final(self).list@ == old(self).list@.update(
                k as int,
                LayerSurface { scheduled: true, ..old(self).list@[k as int] },
            ),
            final(self).queue@ == (if old(self).list@[k as int].scheduled {
                old(self).queue@
            } else {
                old(self).queue@.push(old(self).list@[k as int].uid)
            }),
            *final(self) == (Layers { list: final(self).list, queue: final(self).queue, ..*old(self) }),
    {
        if !self.list[k].scheduled {
            self.list[k].scheduled = true;
            self.queue.push(self.list[k].uid);
        }
        assert(self.list@ =~= old(self).list@.update(
            k as int,
            LayerSurface { scheduled: true, ..old(self).list@[k as int] },
        ));
    }
}

fn same_rect(a: Rect, b: Rect) -> (r: bool)
    ensures
        r == (a == b),
{
    a.x1 == b.x1 && a.y1 == b.y1 && a.x2 == b.x2 && a.y2 == b.y2
}

/// Arranges every output anew. `true` when a tiling area changed: then the windows
/// are laid out again.
pub fn arrange(layers: &mut Layers) -> (r: bool)
    requires
        old(layers).wf(),
        old(layers).fits(),
    ensures
        final(layers).wf(),
        arranged(*old(layers), old(layers).list@, *final(layers)),
        r == areas_differ(*old(layers), *final(layers)),
{
    let ghost start = *layers;
    let n: usize = layers.list.len();
    let slots: usize = layers.rects.len();
    let mut new: Vec<Rect> = Vec::new();
    for i in 0..n
        invariant
            n == layers.list@.len(),
            all_wf(layers.list@),
            new@.len() == i,
            forall|j: int| 0 <= j < i ==> #[trigger] new@[j] == layers.list@[j].rect,
    {
        new.push(layers.list[i].rect);
    }
    let mut changed: bool = false;
    for slot in 0..slots
        invariant
            start == *old(layers),
            start.wf(),
            start.fits(),
            n == start.list@.len(),
            slots == start.rects@.len(),
            *layers == (Layers { usable: layers.usable, ..start }),
            layers.usable@.len() == slots,
            new@.len() == n,
            forall|j: int|
                #![trigger new@[j]]
                0 <= j < n ==> if start.list@[j].linked && start.list@[j].output < slot {
                    let o = start.list@[j].output as int;
                    bounds(new@[j]) == spot(start.list@, o, bounds(start.rects@[o]), j) && new@[j].wf()
                } else {
                    new@[j] == start.list@[j].rect
                },
            forall|k: int|
                0 <= k < slot ==> bounds(#[trigger] layers.usable@[k]) == usable_area(
                    start.list@,
                    k,
                    bounds(start.rects@[k]),
                ),
            forall|k: int| slot <= k < slots ==> layers.usable@[k] == start.usable@[k],
            changed == (exists|k: int| 0 <= k < slot && #[trigger] layers.usable@[k] != start.usable@[k]),
    {
        let ghost before = layers.usable@;
        let out: Rect = layers.rects[slot];
        assert(slot_fits(start.list@, slot as int, bounds(start.rects@[slot as int])));
        let u: Rect = arrange_slot(&layers.list, slot, out, &mut new);
        let differs: bool = !same_rect(layers.usable[slot], u);
        layers.usable.set(slot, u);
        proof {
            assert(layers.usable@[slot as int] == u);
            if changed {
                let k = choose|k: int| 0 <= k < slot && #[trigger] before[k] != start.usable@[k];
                assert(layers.usable@[k] != start.usable@[k]);
            }
            if exists|k: int| 0 <= k < slot + 1 && #[trigger] layers.usable@[k] != start.usable@[k] {
                let k = choose|k: int| 0 <= k < slot + 1 && #[trigger] layers.usable@[k] != start.usable@[k];
                if k < slot {
                    assert(before[k] != start.usable@[k]);
                }
            }
        }
        changed = changed || differs;
    }
    let ghost mid = *layers;
    assert(changed == areas_differ(start, mid));
    assert(layers.queue@ =~= start.queue@ + newly_queued(start.list@, 0));
    for i in 0..n
        invariant
            start == *old(layers),
            start.wf(),
            n == start.list@.len(),
            slots == start.rects@.len(),
            mid == (Layers { usable: mid.usable, ..start }),
            changed == areas_differ(start, mid),
            *layers == (Layers { list: layers.list, queue: layers.queue, ..mid }),
            layers.list@.len() == n,
            new@.len() == n,
            forall|j: int|
                #![trigger new@[j]]
                0 <= j < n ==> if start.list@[j].linked && start.list@[j].output < slots {
                    let o = start.list@[j].output as int;
                    bounds(new@[j]) == spot(start.list@, o, bounds(start.rects@[o]), j) && new@[j].wf()
                } else {
                    new@[j] == start.list@[j].rect
                },
            forall|j: int| i <= j < n ==> layers.list@[j] == start.list@[j],
            forall|j: int|
                0 <= j < i ==> #[trigger] layers.list@[j] == (LayerSurface {
                    rect: new@[j],
                    scheduled: start.list@[j].scheduled || start.list@[j].linked,
                    ..start.list@[j]
                }),
            layers.queue@ == start.queue@ + newly_queued(start.list@, i as nat),
    {
        let ghost q = layers.queue@;
        layers.list[i].rect = new[i];
        if layers.list[i].linked {
            layers.schedule_configure(i);
        }
        assert(layers.queue@ =~= start.queue@ + newly_queued(start.list@, (i + 1) as nat));
    }
    proof {
        assert forall|j: int| 0 <= j < n implies (#[trigger] layers.list@[j]).wf() by {
            assert(start.list@[j].wf());
            assert(new@[j].wf());
        }
        assert(layers.usable == mid.usable);
        assert(areas_differ(start, *layers) == areas_differ(start, mid));
    }
    changed
}

/// What a change of one surface leaves to do.
#[derive(Clone, Copy, Debug, PartialEq, Eq, Structural)]
pub struct Effects {
    /// the surfaces were arranged: pointer focus is looked up again, and the keyboard
    /// lock applied
    pub rearranged: bool,
    /// a tiling area changed
    pub relayout: bool,
    /// the surface entered its output (`true`), or left it
    pub output: Option<bool>,
    /// the surface left its output by name, as the output is gone
    pub left_dead: bool,
    /// the popups are dismissed
    pub dismiss: bool,
}

pub open spec fn nothing() -> Effects {
    Effects { rearranged: false, relayout: false, output: None, left_dead: false, dismiss: false }
}

/// `b` is `a` with another list.
pub open spec fn relisted(a: Layers, list: Seq<LayerSurface>, b: Layers) -> bool {
    b.list@ == list && b == (Layers { list: b.list, ..a })
}

/// Whether unlinking a surface tells it that it left its output. A closed one left
/// by name already: its slot may hold another output by now.
pub open spec fn leaves(l: LayerSurface) -> bool {
    !l.destroyed && !l.closed
}

fn quiet() -> (r: Effects)
    ensures
        r == nothing(),
{
    Effects { rearranged: false, relayout: false, output: None, left_dead: false, dismiss: false }
}

/// What a commit does to a surface.
pub enum Applied {
    /// Closed: nothing.
    Ignored,
    /// The first commit of a cycle: a configure answers it.
    First,
    /// It is mapped, last in the order.
    Links,
    /// It is unmapped.
    Unlinks,
    /// A change of a mapped surface can move everything.
    Stays,
    /// Not mapped, and still not.
    Idle,
}

pub open spec fn applied(l: LayerSurface, shows: bool) -> Applied {
    if l.closed {
        Applied::Ignored
    } else if !l.configured {
        Applied::First
    } else if shows && !l.linked {
        Applied::Links
    } else if !shows && l.linked {
        Applied::Unlinks
    } else if l.linked {
        Applied::Stays
    } else {
        Applied::Idle
    }
}

/// The surfaces after a commit, before they are arranged.
pub open spec fn applied_list(list: Seq<LayerSurface>, k: int, shows: bool) -> Seq<LayerSurface> {
    let l = LayerSurface { shows, ..list[k] };
    match applied(list[k], shows) {
        Applied::First => list.update(k, LayerSurface { configured: true, scheduled: true, ..l }),
        Applied::Links => list.remove(k).push(LayerSurface { linked: true, ..l }),
        Applied::Unlinks => list.update(k, unmapped(LayerSurface { linked: false, ..l })),
        _ => list.update(k, l),
    }
}

pub open spec fn rearranges(a: Applied) -> bool {
    a is Links || a is Unlinks || a is Stays
}

impl Layers {
    /// A commit was applied to surface `k`, which shows a buffer now or not.
    pub fn after_apply(&mut self, k: usize, shows: bool) -> (r: Effects)
        requires
            old(self).wf(),
            k < old(self).list@.len(),
            rearranges(applied(old(self).list@[k as int], shows)) ==> list_fits(
                old(self).rects@,
                applied_list(old(self).list@, k as int, shows),
            ),
        ensures
            final(self).wf(),
            ({
                let l = old(self).list@[k as int];
                let list = applied_list(old(self).list@, k as int, shows);
                match applied(l, shows) {
                    Applied::Ignored | Applied::Idle => relisted(*old(self), list, *final(self)) && r == nothing(),
                    Applied::First => {
                        &&& r == nothing()
                        &&& final(self).list@ == list
                        &&& final(self).queue@ == (if l.scheduled {
                            old(self).queue@
                        } else {
                            old(self).queue@.push(l.uid)
                        })
                        &&& *final(self) == (Layers { list: final(self).list, queue: final(self).queue, ..*old(self) })
                    },
                    Applied::Links => {
                        &&& arranged(*old(self), list, *final(self))
                        &&& r == (Effects {
                            rearranged: true,
                            relayout: areas_differ(*old(self), *final(self)),
                            output: Some(true),
                            ..nothing()
                        })
                    },
                    Applied::Unlinks => {
                        &&& arranged(*old(self), list, *final(self))
                        &&& r == (Effects {
                            rearranged: true,
                            relayout: areas_differ(*old(self), *final(self)),
                            output: if leaves(l) { Some(false) } else { None },
                            dismiss: true,
                            ..nothing()
                        })
                    },
                    Applied::Stays => {
                        &&& arranged(*old(self), list, *final(self))
                        &&& r == (Effects {
                            rearranged: true,
                            relayout: areas_differ(*old(self), *final(self)),
                            ..nothing()
                        })
                    },
                }
            }),
    {
        let ghost start = *self;
        let ghost want = applied_list(self.list@, k as int, shows);
        assert(self.list@[k as int].wf());
        self.list[k].shows = shows;
        if self.list[k].closed {
            assert(self.list@ =~= want);
            assert(all_wf(self.list@));
            return quiet();
        }
        if !self.list[k].configured {
            self.list[k].configured = true;
            self.schedule_configure(k);
            assert(self.list@ =~= want);
            assert(all_wf(self.list@));
            return quiet();
        }
        let mut fx: Effects = quiet();
        if shows && !self.list[k].linked {
            let mut l: LayerSurface = self.list.remove(k);
            l.linked = true;
            self.list.push(l);
            fx.output = Some(true);
        } else if !shows && self.list[k].linked {
            if !self.list[k].destroyed && !self.list[k].closed {
                fx.output = Some(false);
            }
            fx.dismiss = true;
            self.list[k].linked = false;
            self.list[k].reset_after_unmap();
        } else if !self.list[k].linked {
            assert(self.list@ =~= want);
            assert(all_wf(self.list@));
            return fx;
        }
        assert(self.list@ =~= want);
        assert(all_wf(self.list@));
        fx.rearranged = true;
        fx.relayout = arrange(self);
        fx
    }

    /// The output of surface `k` is gone: the surface will not be shown again. It
    /// leaves the output (by name, when `named` says that it is known), is told that
    /// it is closed, and is ignored until its client destroys it.
    pub fn close_for_output_loss(&mut self, k: usize, out: &mut Out, named: bool) -> (r: Effects)
        requires
            old(self).wf(),
            k < old(self).list@.len(),
            list_fits(
                old(self).rects@,
                old(self).list@.update(
                    k as int,
                    LayerSurface { closed: true, linked: false, ..old(self).list@[k as int] },
                ),
            ),
        ensures
            final(self).wf(),
            ({
                let l = old(self).list@[k as int];
                let list = old(self).list@.update(k as int, LayerSurface { closed: true, linked: false, ..l });
                &&& final(out).sent@ == (if l.closed {
                    old(out).sent@
                } else {
                    old(out).sent@.push(sent(l.client, l.id, Event::LayerClosed))
                })
                &&& l.linked ==> arranged(*old(self), list, *final(self))
                &&& !l.linked ==> relisted(*old(self), list, *final(self))
                &&& r == (Effects {
                    rearranged: l.linked,
                    relayout: l.linked && areas_differ(*old(self), *final(self)),
                    output: None,
                    left_dead: l.linked && !l.destroyed && named,
                    dismiss: true,
                })
            }),
    {
        let ghost want = self.list@.update(
            k as int,
            LayerSurface { closed: true, linked: false, ..self.list@[k as int] },
        );
        assert(self.list@[k as int].wf());
        let mut fx: Effects = quiet();
        fx.left_dead = self.list[k].linked && !self.list[k].destroyed && named;
        fx.dismiss = true;
        let was_linked: bool = self.list[k].linked;
        self.list[k].send_closed(out);
        self.list[k].linked = false;
        assert(self.list@ =~= want);
        assert(all_wf(self.list@));
        if was_linked {
            fx.rearranged = true;
            fx.relayout = arrange(self);
        }
        fx
    }

    /// The client destroys surface `k`.
    pub fn destroy(&mut self, k: usize) -> (r: Effects)
        requires
            old(self).wf(),
            k < old(self).list@.len(),
            list_fits(old(self).rects@, old(self).list@.remove(k as int)),
        ensures
            final(self).wf(),
            ({
                let l = old(self).list@[k as int];
                let list = old(self).list@.remove(k as int);
                &&& l.linked ==> arranged(*old(self), list, *final(self))
                &&& !l.linked ==> relisted(*old(self), list, *final(self))
                &&& r == (Effects {
                    rearranged: l.linked,
                    relayout: l.linked && areas_differ(*old(self), *final(self)),
                    output: if l.linked && leaves(l) { Some(false) } else { None },
                    left_dead: false,
                    dismiss: true,
                })
            }),
    {
        let l: LayerSurface = self.list.remove(k);
        assert(all_wf(self.list@));
        let mut fx: Effects = quiet();
        fx.dismiss = true;
        if l.linked {
            if !l.destroyed && !l.closed {
                fx.output = Some(false);
            }
            fx.rearranged = true;
            fx.relayout = arrange(self);
        }
        fx
    }

    /// Where a surface that is not in the arrangement would go.
    pub open spec fn would_go(self, l: LayerSurface) -> Bounds {
        let out = self.slot_rect_spec(l.output);
        let u = self.usable_of_spec(l.output);
        placed(l.current, bounds(if l.current.exclusive >= 0 && !u.empty_spec() { u } else { out }))
    }

    pub open spec fn size_now(self, l: LayerSurface) -> (u32, u32) {
        let b = if l.linked { bounds(l.rect) } else { self.would_go(l) };
        ((b.x2 - b.x1) as u32, (b.y2 - b.y1) as u32)
    }

    /// The size that a configure of surface `k` carries right now: that of the place
    /// it has, or of the one it would get.
    pub fn compute_size(&self, k: usize) -> (r: (u32, u32))
        requires
            self.wf(),
            k < self.list@.len(),
            self.list@[k as int].linked || is_rect(self.would_go(self.list@[k as int])),
        ensures
            r == self.size_now(self.list@[k as int]),
    {
        let l: &LayerSurface = &self.list[k];
        assert(self.list@[k as int].wf());
        if l.linked {
            return (l.rect.width() as u32, l.rect.height() as u32);
        }
        let out: Rect = self.slot_rect(l.output);
        let u: Rect = self.usable_of(l.output);
        let base: Rect = if l.current.exclusive >= 0 && !u.is_empty() { u } else { out };
        let r: Rect = place(l.current, base);
        (r.width() as u32, r.height() as u32)
    }

    /// Sends the scheduled configure of surface `k`, unless it has that size already.
    pub fn flush_configure(&mut self, k: usize, out: &mut Out)
        requires
            old(self).wf(),
            k < old(self).list@.len(),
            ({
                let l = old(self).list@[k as int];
                !l.destroyed && !l.closed && !l.linked ==> is_rect(old(self).would_go(l))
            }),
        ensures
            final(self).wf(),
            ({
                let l = old(self).list@[k as int];
                let size = old(self).size_now(l);
                &&& relisted(*old(self), old(self).list@.update(k as int, flushed(l, size)), *final(self))
                &&& final(out).sent@ == old(out).sent@ + flush_events(l, size)
            }),
    {
        let ghost l = self.list@[k as int];
        let ghost size = self.size_now(l);
        assert(l.wf());
        let live: bool = !self.list[k].destroyed && !self.list[k].closed;
        if !live {
            self.list[k].scheduled = false;
        } else {
            let (w, h): (u32, u32) = self.compute_size(k);
            self.list[k].scheduled = false;
            let same: bool = match self.list[k].last_cfg {
                Some(c) => c.0 == w && c.1 == h,
                None => false,
            };
            if !same {
                let serial: u32 = self.list[k].next_serial;
                self.list[k].last_cfg = Some((w, h));
                self.list[k].next_serial = if serial == u32::MAX { 1 } else { serial + 1 };
                self.list[k].last_sent = serial;
                out.event(
                    self.list[k].client,
                    self.list[k].id,
                    Event::LayerConfigure { serial, width: w, height: h },
                );
            }
        }
        assert(self.list@ =~= old(self).list@.update(k as int, flushed(l, size)));
        assert(all_wf(self.list@));
        assert(out.sent@ =~= old(out).sent@ + flush_events(l, size));
    }
}

/// Whether a flush tells the client a size.
pub open spec fn tells(l: LayerSurface, size: (u32, u32)) -> bool {
    !l.destroyed && !l.closed && l.last_cfg != Some(size)
}

pub open spec fn flushed(l: LayerSurface, size: (u32, u32)) -> LayerSurface {
    if tells(l, size) {
        LayerSurface {
            scheduled: false,
            last_cfg: Some(size),
            next_serial: serial_after(l.next_serial),
            last_sent: l.next_serial,
            ..l
        }
    } else {
        LayerSurface { scheduled: false, ..l }
    }
}

pub open spec fn flush_events(l: LayerSurface, size: (u32, u32)) -> Seq<Sent> {
    if tells(l, size) {
        seq![
            sent(
                l.client,
                l.id,
                Event::LayerConfigure { serial: l.next_serial, width: size.0, height: size.1 },
            ),
        ]
    } else {
        Seq::empty()
    }
}

/// The hook of a layer surface on its surface.
#[derive(Clone, Copy, Debug, PartialEq, Eq, Structural)]
pub struct LayerExt {
    /// identity of the layer surface
    pub ls: u64,
}

impl LayerExt {
    pub fn layer_surface(&self) -> (r: Option<u64>)
        ensures
            r == Some(self.ls),
    {
        Some(self.ls)
    }
}

pub open spec fn drives(surface: u64) -> spec_fn(LayerSurface) -> bool {
    |l: LayerSurface| l.surface == surface
}

/// The slot of the layer surface that drives a surface.
pub fn from_surface(list: &Vec<LayerSurface>, surface: u64) -> (r: Option<usize>)
    ensures
        match r {
            Some(k) => first_slot(list@, drives(surface)) == Some(k as int) && k < list@.len(),
            None => first_slot(list@, drives(surface)) is None,
        },
{
    find(
        list,
        |l: &LayerSurface| -> (b: bool) ensures b == (l.surface == surface) { l.surface == surface },
        Ghost(drives(surface)),
    )
}

/// A mapped surface that wants the keyboard for itself, above the windows.
pub open spec fn wants_keyboard(l: LayerSurface) -> bool {
    l.current.ki == KI_EXCLUSIVE && l.current.layer >= TOP && l.is_mapped()
}

/// The surface that holds the keyboard: overlay beats top, and of two on one layer
/// the one mapped last.
pub open spec fn holds_keyboard(list: Seq<LayerSurface>, k: int) -> bool {
    &&& 0 <= k < list.len()
    &&& wants_keyboard(list[k])
    &&& forall|j: int|
        0 <= j < list.len() && wants_keyboard(#[trigger] list[j]) ==> list[j].current.layer < list[k].current.layer || (
        list[j].current.layer == list[k].current.layer && j <= k)
}

/// The surface that pins the keyboard.
pub fn kb_lock(list: &Vec<LayerSurface>) -> (r: Option<usize>)
    ensures
        match r {
            Some(k) => holds_keyboard(list@, k as int),
            None => forall|j: int| 0 <= j < list@.len() ==> !wants_keyboard(#[trigger] list@[j]),
        },
{
    let mut lock: Option<usize> = None;
    for i in 0..list.len()
        invariant
            match lock {
                Some(k) => k < i && holds_keyboard(list@.take(i as int), k as int),
                None => forall|j: int| 0 <= j < i ==> !wants_keyboard(#[trigger] list@[j]),
            },
    {
        let ghost front = list@.take(i as int);
        let ghost all = list@.take(i + 1);
        assert(forall|j: int| 0 <= j < i ==> #[trigger] all[j] == front[j]);
        let s: LayerState = list[i].current;
        if s.ki == KI_EXCLUSIVE && s.layer >= TOP && list[i].mapped() {
            let better: bool = match lock {
                None => true,
                Some(k) => s.layer >= list[k].current.layer,
            };
            if better {
                lock = Some(i);
            }
        }
        proof {
            if let Some(k) = lock {
                assert forall|j: int| 0 <= j < all.len() && wants_keyboard(#[trigger] all[j]) implies all[j].current.layer
                    < all[k as int].current.layer || (all[j].current.layer == all[k as int].current.layer && j
                    <= k) by {
                    if j < i {
                        assert(all[j] == front[j]);
                        assert(wants_keyboard(front[j]));
                    }
                }
            }
        }
    }
    assert(list@.take(list@.len() as int) =~= list@);
    lock
}

/// Whom the keyboard could go to when a layer lets go of it.
#[derive(Clone, Copy, Debug, PartialEq, Eq, Structural)]
pub struct Fallbacks {
    /// the window under the cursor
    pub under_cursor: Option<u64>,
    /// the first tiled window of the workspace
    pub tiled: Option<u64>,
    /// its topmost floating window
    pub floating: Option<u64>,
}

/// Where the keyboard goes.
#[derive(Clone, Copy, Debug, PartialEq, Eq, Structural)]
pub enum Keyboard {
    Stays,
    /// To a surface, or to none.
    Goes(Option<u64>),
}

/// Sends the keyboard to the surface that pins it, or on from a layer surface that is
/// gone. `seat` says, of the seat if there is one, whether the focus is on a layer
/// surface that is not mapped.
pub fn apply_kb_lock(list: &Vec<LayerSurface>, seat: Option<bool>, next: Fallbacks) -> (r: Keyboard)
    ensures
        seat is None ==> r is Stays,
        seat matches Some(orphaned) ==> {
            &&& forall|k: int| #[trigger] holds_keyboard(list@, k) ==> r == Keyboard::Goes(Some(list@[k].surface))
            &&& (forall|j: int| 0 <= j < list@.len() ==> !wants_keyboard(#[trigger] list@[j])) ==> r == (if orphaned {
                Keyboard::Goes(
                    if next.under_cursor is Some {
                        next.under_cursor
                    } else if next.tiled is Some {
                        next.tiled
                    } else {
                        next.floating
                    },
                )
            } else {
                Keyboard::Stays
            })
        },
{
    let orphaned: bool = match seat {
        None => {
            return Keyboard::Stays;
        },
        Some(o) => o,
    };
    match kb_lock(list) {
        Some(k) => {
            proof {
                assert forall|j: int| #[trigger] holds_keyboard(list@, j) implies list@[j].surface
                    == list@[k as int].surface by {
                    assert(wants_keyboard(list@[k as int]));
                    assert(wants_keyboard(list@[j]));
                }
                assert(wants_keyboard(list@[k as int]));
            }
            Keyboard::Goes(Some(list[k].surface))
        },
        None => if orphaned {
            if next.under_cursor.is_some() {
                Keyboard::Goes(next.under_cursor)
            } else if next.tiled.is_some() {
                Keyboard::Goes(next.tiled)
            } else {
                Keyboard::Goes(next.floating)
            }
        } else {
            Keyboard::Stays
        },
    }
}

/// A box lies within another.
pub open spec fn within(a: Bounds, b: Bounds) -> bool {
    b.x1 <= a.x1 && b.y1 <= a.y1 && a.x2 <= b.x2 && a.y2 <= b.y2
}

/// The zone of a state and the margin of its edge do not pull the edge outwards.
pub open spec fn claims_inward(s: LayerState) -> bool {
    match claimed_edge(s) {
        None => true,
        Some(e) => s.exclusive + (if e == A_TOP {
            s.margin.top
        } else if e == A_BOTTOM {
            s.margin.bottom
        } else if e == A_LEFT {
            s.margin.left
        } else {
            s.margin.right
        }) >= 0,
    }
}

/// Zones add up: what a surface gets to be placed in lies within what each earlier
/// surface of the arrangement left over.
pub proof fn claims_add_up(list: Seq<LayerSurface>, slot: int, layer: u32, b: Bounds, i: nat, j: nat)
    requires
        i < j <= list.len(),
        counts(list[i as int], slot, layer),
        forall|k: int| 0 <= k < list.len() ==> claims_inward((#[trigger] list[k]).current),
    ensures
        within(walk(list, slot, layer, j, b), claim(walk(list, slot, layer, i, b), list[i as int].current)),
        within(walk(list, slot, layer, j, b), walk(list, slot, layer, i, b)),
    decreases j,
{
    assert(claims_inward(list[i as int].current));
    assert(claims_inward(list[j - 1].current));
    if i + 1 < j {
        claims_add_up(list, slot, layer, b, i, (j - 1) as nat);
    }
}

proof fn walk_shrinks(list: Seq<LayerSurface>, slot: int, layer: u32, b: Bounds, n: nat)
    requires
        n <= list.len(),
        forall|k: int| 0 <= k < list.len() ==> claims_inward((#[trigger] list[k]).current),
    ensures
        within(walk(list, slot, layer, n, b), b),
    decreases n,
{
    if n > 0 {
        walk_shrinks(list, slot, layer, b, (n - 1) as nat);
        assert(claims_inward(list[n - 1].current));
    }
}

/// What the surfaces before `i` in the arrangement leave for it.
pub open spec fn room(list: Seq<LayerSurface>, slot: int, out: Bounds, i: int) -> Bounds {
    walk(list, slot, list[i].current.layer, i as nat, start_of(list, slot, list[i].current.layer, out))
}

/// `i` comes before `j` in the arrangement of an output: it is on a higher layer, or
/// was mapped earlier on the same one.
pub open spec fn precedes(list: Seq<LayerSurface>, slot: int, i: int, j: int) -> bool {
    &&& 0 <= i < list.len()
    &&& 0 <= j < list.len()
    &&& counts(list[i], slot, list[i].current.layer)
    &&& list[i].current.layer <= OVERLAY
    &&& list[i].current.layer > list[j].current.layer || (list[i].current.layer == list[j].current.layer && i < j)
}

proof fn lower_layers_get_the_rest(list: Seq<LayerSurface>, slot: int, out: Bounds, high: u32, low: u32)
    requires
        low < high <= OVERLAY,
        forall|k: int| 0 <= k < list.len() ==> claims_inward((#[trigger] list[k]).current),
    ensures
        within(start_of(list, slot, low, out), walk(list, slot, high, list.len(), start_of(list, slot, high, out))),
    decreases high - low,
{
    if low + 1 < high {
        lower_layers_get_the_rest(list, slot, out, high, (low + 1) as u32);
        walk_shrinks(list, slot, (low + 1) as u32, start_of(list, slot, (low + 1) as u32, out), list.len());
    }
}

/// Zones accumulate in arrangement order: what a surface gets to be placed in lies
/// within what every surface before it left, on its own layer and on higher ones.
pub proof fn zones_accumulate(list: Seq<LayerSurface>, slot: int, out: Bounds, i: int, j: int)
    requires
        precedes(list, slot, i, j),
        forall|k: int| 0 <= k < list.len() ==> claims_inward((#[trigger] list[k]).current),
    ensures
        within(room(list, slot, out, j), claim(room(list, slot, out, i), list[i].current)),
{
    let (high, low) = (list[i].current.layer, list[j].current.layer);
    let b = start_of(list, slot, high, out);
    if high == low {
        claims_add_up(list, slot, high, b, i as nat, j as nat);
    } else {
        claims_add_up(list, slot, high, b, i as nat, list.len());
        lower_layers_get_the_rest(list, slot, out, high, low);
        walk_shrinks(list, slot, low, start_of(list, slot, low, out), j as nat);
    }
}

/// A bar: it claims an edge, is held to that edge alone of the two opposite ones, and
/// is no thicker than its zone.
pub open spec fn is_bar(s: LayerState, e: u32) -> bool {
    &&& claimed_edge(s) == Some(e)
    &&& if e == A_TOP || e == A_BOTTOM {
        s.anchor & A_DOWN == e && 0 < s.size.1 <= s.exclusive
    } else {
        s.anchor & A_ACROSS == e && 0 < s.size.0 <= s.exclusive
    }
}

/// The margin a bar keeps to its edge.
pub open spec fn edge_margin(s: LayerState, e: u32) -> int {
    if e == A_TOP {
        s.margin.top as int
    } else if e == A_BOTTOM {
        s.margin.bottom as int
    } else if e == A_LEFT {
        s.margin.left as int
    } else {
        s.margin.right as int
    }
}

/// Seen from an edge, one box ends before the other begins.
pub open spec fn stacked(e: u32, first: Bounds, second: Bounds) -> bool {
    if e == A_TOP {
        first.y2 <= second.y1
    } else if e == A_BOTTOM {
        second.y2 <= first.y1
    } else if e == A_LEFT {
        first.x2 <= second.x1
    } else {
        second.x2 <= first.x1
    }
}

/// Two bars on one edge stack instead of overlapping, whatever edge it is: the one that
/// is arranged later begins where the earlier one ends, or further in.
pub proof fn bars_stack(list: Seq<LayerSurface>, slot: int, out: Bounds, i: int, j: int, e: u32)
    requires
        precedes(list, slot, i, j),
        is_edge(e),
        is_bar(list[i].current, e),
        is_bar(list[j].current, e),
        edge_margin(list[j].current, e) >= 0,
        forall|k: int| 0 <= k < list.len() ==> claims_inward((#[trigger] list[k]).current),
    ensures
        stacked(e, spot(list, slot, out, i), spot(list, slot, out, j)),
{
    zones_accumulate(list, slot, out, i, j);
    let (p, q) = (list[i].current.anchor, list[j].current.anchor);
    assert(p & 3 == 1 ==> p & 1 != 0) by (bit_vector);
    assert(q & 3 == 1 ==> q & 1 != 0) by (bit_vector);
    assert(p & 3 == 2 ==> p & 2 != 0) by (bit_vector);
    assert(q & 3 == 2 ==> q & 2 != 0) by (bit_vector);
    assert(p & 12 == 4 ==> p & 4 != 0) by (bit_vector);
    assert(q & 12 == 4 ==> q & 4 != 0) by (bit_vector);
    assert(p & 12 == 8 ==> p & 8 != 0) by (bit_vector);
    assert(q & 12 == 8 ==> q & 8 != 0) by (bit_vector);
}

/// Unmapping resets a surface and restarts its configure cycle: the next commit is a
/// first one again, and a bare one is an error.
pub proof fn unmapping_starts_over(l: LayerSurface, shows: bool)
    requires
        !l.closed,
    ensures
        state_fault(unmapped(l).pending) is Some,
        unmapped(l).current == default_state(l.created_layer),
        applied(unmapped(l), shows) is First,
        forall|size: (u32, u32)| !l.destroyed ==> #[trigger] tells(unmapped(l), size),
{
    defaults_are_invalid(l.created_layer);
}

/// Flushing twice in a row tells the client nothing new.
pub proof fn identical_configures_are_dropped(l: LayerSurface, size: (u32, u32))
    ensures
        flush_events(flushed(l, size), size).len() == 0,
        flushed(flushed(l, size), size) == flushed(l, size),
{
}

/// A surface flushed `n` times at one size.
pub open spec fn flushed_times(l: LayerSurface, size: (u32, u32), n: nat) -> LayerSurface
    decreases n,
{
    if n == 0 { l } else { flushed(flushed_times(l, size, (n - 1) as nat), size) }
}

/// What the client hears of that.
pub open spec fn flush_events_times(l: LayerSurface, size: (u32, u32), n: nat) -> Seq<Sent>
    decreases n,
{
    if n == 0 {
        Seq::empty()
    } else {
        flush_events_times(l, size, (n - 1) as nat) + flush_events(flushed_times(l, size, (n - 1) as nat), size)
    }
}

/// However often a configure is flushed while the size stays the same, a live surface that
/// was last told another size, or none since it was made or unmapped, hears of it once, with
/// a serial that is not zero and one above the last; one that was told this size hears
/// nothing and uses no serial up.
pub proof fn a_size_is_told_once(l: LayerSurface, size: (u32, u32), n: nat)
    requires
        l.wf(),
        n >= 1,
    ensures
        flush_events_times(l, size, n) == flush_events(l, size),
        flushed_times(l, size, n) == flushed(l, size),
        flushed(l, size).wf(),
        tells(l, size) ==> {
            &&& flush_events(l, size) == seq![
                sent(
                    l.client,
                    l.id,
                    Event::LayerConfigure { serial: serial_after(l.last_sent), width: size.0, height: size.1 },
                ),
            ]
            &&& serial_after(l.last_sent) != 0
            &&& l.last_sent < u32::MAX ==> serial_after(l.last_sent) == l.last_sent + 1
            &&& flushed(l, size).last_sent == serial_after(l.last_sent)
        },
        !tells(l, size) ==> {
            &&& flush_events(l, size).len() == 0
            &&& flushed(l, size).next_serial == l.next_serial
            &&& flushed(l, size).last_sent == l.last_sent
        },
    decreases n,
{
    if n == 1 {
        assert(flushed_times(l, size, 0) == l);
        assert(flush_events_times(l, size, 0) =~= Seq::<Sent>::empty());
        reveal_with_fuel(flushed_times, 2);
        reveal_with_fuel(flush_events_times, 2);
        assert(Seq::<Sent>::empty() + flush_events(l, size) =~= flush_events(l, size));
    } else {
        a_size_is_told_once(l, size, (n - 1) as nat);
        identical_configures_are_dropped(l, size);
        assert(flush_events(l, size) + flush_events(flushed(l, size), size) =~= flush_events(l, size));
    }
}

/// The state a surface starts with, and is reset to, breaks a rule: a bare commit is
/// an error.
pub proof fn defaults_are_invalid(layer: u32)
    ensures
        state_fault(default_state(layer)) is Some,
{
    assert(0u32 & 12u32 != 12u32) by (bit_vector);
}

/// A positive zone that claims no edge counts as zero.
pub proof fn zones_without_an_edge_count_for_nothing(s: LayerState, b: Bounds)
    requires
        s.exclusive > 0,
        claimed_edge(s) is None,
    ensures
        claim(b, s) == b,
        placed(s, b) == placed(LayerState { exclusive: 0, ..s }, b),
        claimed_edge(LayerState { exclusive: 0, ..s }) is None,
{
}

} // verus!
