//! The lock screen. One slot holds the lock and outlives its client: a dead locker
//! must not unlock the session, and the next lock request takes the slot over. The
//! client hears that it is locked once every output that was there at the time has
//! shown a locked frame.
use crate::list::{any, filter_members, find, retain};
use crate::output::{first_slot, named, sizes_fit, slot_named, Output};
use crate::protocol::events::{refused, sent, told_invalid, Event, Out, Sent};
use crate::protocol::interfaces::Interface;
use crate::protocol::{ObjectId, SurfaceFacts};
use crate::rect::Rect;
use crate::text::{same_text, texts};
use vstd::prelude::*;

verus! {

pub const INVALID_DESTROY: u32 = 0;

pub const INVALID_UNLOCK: u32 = 1;

pub const ROLE: u32 = 2;

pub const DUPLICATE_OUTPUT: u32 = 3;

pub const ALREADY_CONSTRUCTED: u32 = 4;

pub const COMMIT_BEFORE_FIRST_ACK: u32 = 0;

pub const NULL_BUFFER: u32 = 1;

pub const DIMENSIONS_MISMATCH: u32 = 2;

pub const INVALID_SERIAL: u32 = 3;

/// The session's lock, if it is locked.
pub struct LockSlot {
    pub lock: Option<SessionLock>,
}

pub fn locked(slot: &LockSlot) -> (r: bool)
    ensures
        r == (slot.lock is Some),
{
    slot.lock.is_some()
}

pub fn active(slot: &LockSlot) -> (r: Option<&SessionLock>)
    ensures
        match slot.lock {
            Some(l) => r matches Some(m) && *m == l,
            None => r is None,
        },
{
    slot.lock.as_ref()
}

pub open spec fn output_rect_spec(outs: Seq<Output>, headless: (u32, u32), name: Seq<char>) -> Rect {
    match first_slot(outs, named(name)) {
        Some(k) => outs[k].rect_spec(),
        None => Rect { x1: 0, y1: 0, x2: headless.0 as i32, y2: headless.1 as i32 },
    }
}

/// The outputs and the headless size fit signed coordinates.
pub open spec fn glass_fits(outs: Seq<Output>, headless: (u32, u32)) -> bool {
    sizes_fit(outs) && headless.0 <= i32::MAX && headless.1 <= i32::MAX
}

/// The rect of an output by name; without one, the headless size.
pub fn output_rect(outs: &Vec<Output>, headless: (u32, u32), name: &str) -> (r: Rect)
    requires
        glass_fits(outs@, headless),
    ensures
        r == output_rect_spec(outs@, headless, name@),
        r.wf(),
{
    match slot_named(outs, name) {
        Some(k) => outs[k].rect(),
        None => Rect::new_sized_saturating(0, 0, headless.0 as i32, headless.1 as i32),
    }
}

pub struct SessionLockManagerGlobal;

impl SessionLockManagerGlobal {
    pub fn interface(&self) -> (r: Interface)
        ensures
            r is ExtSessionLockManagerV1,
    {
        Interface::ExtSessionLockManagerV1
    }

    pub fn version(&self) -> (r: u32)
        ensures
            r == 1,
    {
        1
    }

    pub fn bind(&self, client: u32, id: ObjectId, version: u32) -> (r: SessionLockManager)
        ensures
            r == (SessionLockManager { id, client, version }),
    {
        SessionLockManager { id, client, version }
    }
}

#[derive(Clone, Copy, Debug, PartialEq, Eq, Structural)]
pub struct SessionLockManager {
    pub id: ObjectId,
    pub client: u32,
    pub version: u32,
}

pub struct SessionLock {
    pub id: ObjectId,
    pub client: u32,
    /// the client was told: it may unlock, and must not just destroy
    pub locked_sent: bool,
    /// the client was turned away: the object is dead air
    pub finished: bool,
    /// the holding client disconnected; the session stays locked
    pub holder_dead: bool,
    /// outputs that still owe a presented locked frame
    pub pending_outputs: Vec<String>,
    /// outputs that composed a locked frame
    pub staged_outputs: Vec<String>,
    pub surfaces: Vec<LockSurface>,
}

/// What became of a lock request.
pub enum LockOutcome {
    /// Turned away: someone holds the lock.
    Finished(SessionLock),
    /// The slot is taken. Focus leaves the windows and the seat prepares for the
    /// lock; `wake` says whether dark outputs have to be lit first, or they would
    /// never show a locked frame.
    Held { wake: bool },
}

/// A lock as it starts out.
pub open spec fn starts(l: SessionLock, id: ObjectId, client: u32) -> bool {
    &&& l.id == id
    &&& l.client == client
    &&& !l.holder_dead
    &&& l.staged_outputs@.len() == 0
    &&& l.surfaces@.len() == 0
}

/// A client that is still there holds the lock.
pub open spec fn held_alive(s: LockSlot) -> bool {
    s.lock is Some && !s.lock->0.holder_dead
}

/// The slot just taken, with outputs that owe a locked frame.
pub open spec fn taken(s: LockSlot, id: ObjectId, client: u32, outs: Vec<String>) -> bool {
    &&& s.lock is Some
    &&& starts(s.lock->0, id, client)
    &&& !s.lock->0.finished
    &&& s.lock->0.pending_outputs == outs
    &&& s.lock->0.locked_sent == (outs@.len() == 0)
}

/// What a lock request makes of the slot: a live holder keeps it, else it is taken.
pub open spec fn asked(a: LockSlot, b: LockSlot, id: ObjectId, client: u32, outs: Vec<String>) -> bool {
    if held_alive(a) {
        b == a
    } else {
        taken(b, id, client, outs)
    }
}

impl SessionLockManager {
    /// Locks the session. A live holder wins; a dead one is replaced. `outs` are the
    /// outputs on glass.
    pub fn lock(&self, out: &mut Out, slot: &mut LockSlot, id: ObjectId, outs: Vec<String>, dpms_off: bool) -> (r:
        LockOutcome)
        ensures
            asked(*old(slot), *final(slot), id, self.client, outs),
            if held_alive(*old(slot)) {
                &&& final(out).sent@ == old(out).sent@.push(sent(self.client, id, Event::LockFinished))
                &&& r matches LockOutcome::Finished(l) && starts(l, id, self.client) && l.finished && !l.locked_sent
                    && l.pending_outputs@.len() == 0
            } else {
                &&& r matches LockOutcome::Held { wake } && wake == dpms_off
                &&& final(out).sent@ == (if outs@.len() == 0 {
                    old(out).sent@.push(sent(self.client, id, Event::LockLocked))
                } else {
                    old(out).sent@
                })
            },
    {
        let held_alive: bool = match &slot.lock {
            Some(cur) => !cur.holder_dead,
            None => false,
        };
        let mut lk = SessionLock {
            id,
            client: self.client,
            locked_sent: false,
            finished: held_alive,
            holder_dead: false,
            pending_outputs: Vec::new(),
            staged_outputs: Vec::new(),
            surfaces: Vec::new(),
        };
        if held_alive {
            out.event(self.client, id, Event::LockFinished);
            return LockOutcome::Finished(lk);
        }
        if outs.len() == 0 {
            lk.locked_sent = true;
            out.event(self.client, id, Event::LockLocked);
        }
        lk.pending_outputs = outs;
        slot.lock = Some(lk);
        LockOutcome::Held { wake: dpms_off }
    }
}

/// A configure that is not acknowledged yet.
#[derive(Clone, Copy, Debug, PartialEq, Eq, Structural)]
pub struct Configure {
    pub serial: u32,
    pub w: u32,
    pub h: u32,
}

pub struct LockSurface {
    pub id: ObjectId,
    pub client: u32,
    /// identity of the surface
    pub surface: u64,
    pub output_name: String,
    pub next_serial: u32,
    pub last_sent: u32,
    pub acked: u32,
    /// configures sent and not acknowledged
    pub sent: Vec<Configure>,
    /// size of the last acknowledged configure; commits match it exactly
    pub acked_size: (u32, u32),
    /// the surface shows a buffer
    pub mapped: bool,
}

/// The serial that follows another; past the last one they start over.
pub open spec fn serial_after(serial: u32) -> u32 {
    if serial == u32::MAX { 0 } else { (serial + 1) as u32 }
}

impl LockSurface {
    /// The next configure has the serial after the last one's: below the wrap-around it is
    /// one more, and not zero.
    pub open spec fn wf(self) -> bool {
        self.next_serial == serial_after(self.last_sent)
    }
}

pub open spec fn surfaces_wf(surfaces: Seq<LockSurface>) -> bool {
    forall|i: int| 0 <= i < surfaces.len() ==> (#[trigger] surfaces[i]).wf()
}

impl LockSlot {
    pub open spec fn wf(self) -> bool {
        self.lock is Some ==> surfaces_wf(self.lock->0.surfaces@)
    }
}

/// `b` is `a` after one more configure of that size.
pub open spec fn configured(a: LockSurface, b: LockSurface, w: u32, h: u32) -> bool {
    &&& b.sent@ == a.sent@.push(Configure { serial: a.next_serial, w, h })
    &&& b == (LockSurface {
        next_serial: serial_after(a.next_serial),
        last_sent: a.next_serial,
        sent: b.sent,
        ..a
    })
}

pub open spec fn configure_event(a: LockSurface, w: u32, h: u32) -> Sent {
    sent(a.client, a.id, Event::LockConfigure { serial: a.next_serial, width: w, height: h })
}

pub open spec fn with_serial(serial: u32) -> spec_fn(Configure) -> bool {
    |c: Configure| c.serial == serial
}

pub open spec fn after_serial(serial: u32) -> spec_fn(Configure) -> bool {
    |c: Configure| c.serial > serial
}

/// The buffer change of a commit: the size of a new one, or its removal.
#[derive(Clone, Copy, Debug, PartialEq, Eq)]
pub enum BufferChange {
    Kept,
    Detached,
    Attached { w: i32, h: i32 },
}

/// What a commit on a lock surface breaks; `has_buffer` is what it shows so far.
pub open spec fn commit_fault(l: LockSurface, change: BufferChange, has_buffer: bool) -> Option<(u32, Seq<char>)> {
    if l.acked == 0 {
        Some((COMMIT_BEFORE_FIRST_ACK, "commit before the first ack_configure"@))
    } else if change is Detached || (change is Kept && !has_buffer) {
        Some((NULL_BUFFER, "lock surface committed without a buffer"@))
    } else {
        match change {
            BufferChange::Attached { w, h } if (w as u32, h as u32) != l.acked_size => Some(
                (DIMENSIONS_MISMATCH, "buffer does not match the configured size"@),
            ),
            _ => None,
        }
    }
}

impl LockSurface {
    /// Asks the client for a buffer of that size.
    pub fn configure(&mut self, out: &mut Out, w: u32, h: u32)
        ensures
            configured(*old(self), *final(self), w, h),
            final(self).wf(),
            final(out).sent@ == old(out).sent@.push(configure_event(*old(self), w, h)),
    {
        let serial: u32 = self.next_serial;
        self.next_serial = serial.wrapping_add(1);
        self.last_sent = serial;
        self.sent.push(Configure { serial, w, h });
        out.event(self.client, self.id, Event::LockConfigure { serial, width: w, height: h });
    }

    /// The client acknowledges a configure, and with it the older ones. One that was
    /// never sent breaks the protocol, an old one means nothing.
    pub fn ack_configure(&mut self, out: &mut Out, serial: u32)
        ensures
            serial == 0 || serial > old(self).last_sent ==> *final(self) == *old(self) && refused(
                *old(out),
                *final(out),
                old(self).client,
                old(self).id,
                INVALID_SERIAL,
                "ack of a never-sent serial"@,
            ),
            0 < serial <= old(self).last_sent ==> final(out).sent@ == old(out).sent@,
            0 < serial <= old(self).last_sent && serial <= old(self).acked ==> *final(self) == *old(self),
            0 < serial <= old(self).last_sent && serial > old(self).acked ==> {
                &&& final(self).sent@ == old(self).sent@.filter(after_serial(serial))
                &&& *final(self) == (LockSurface {
                    acked: serial,
                    sent: final(self).sent,
                    acked_size: match first_slot(old(self).sent@, with_serial(serial)) {
                        Some(k) => (old(self).sent@[k].w, old(self).sent@[k].h),
                        None => old(self).acked_size,
                    },
                    ..*old(self)
                })
            },
    {
        if serial == 0 || serial > self.last_sent {
            out.protocol_error(self.client, self.id, INVALID_SERIAL, "ack of a never-sent serial");
            return;
        }
        if serial <= self.acked {
            return;
        }
        self.acked = serial;
        match find(
            &self.sent,
            |c: &Configure| -> (b: bool) ensures b == (c.serial == serial) { c.serial == serial },
            Ghost(with_serial(serial)),
        ) {
            Some(k) => {
                self.acked_size = (self.sent[k].w, self.sent[k].h);
            },
            None => {},
        }
        retain(
            &mut self.sent,
            |c: &Configure| -> (b: bool) ensures b == (c.serial > serial) { c.serial > serial },
            Ghost(after_serial(serial)),
        );
    }

    /// Whether a commit may be applied. Every commit keeps a buffer, of exactly the
    /// acknowledged size.
    pub fn commit_requested(&self, out: &mut Out, change: BufferChange, has_buffer: bool) -> (r: bool)
        ensures
            match commit_fault(*self, change, has_buffer) {
                Some((code, text)) => !r && refused(*old(out), *final(out), self.client, self.id, code, text),
                None => r && final(out).sent@ == old(out).sent@,
            },
    {
        if self.acked == 0 {
            out.protocol_error(
                self.client,
                self.id,
                COMMIT_BEFORE_FIRST_ACK,
                "commit before the first ack_configure",
            );
            return false;
        }
        match change {
            BufferChange::Detached => {
                out.protocol_error(self.client, self.id, NULL_BUFFER, "lock surface committed without a buffer");
                false
            },
            BufferChange::Kept => if !has_buffer {
                out.protocol_error(self.client, self.id, NULL_BUFFER, "lock surface committed without a buffer");
                false
            } else {
                true
            },
            BufferChange::Attached { w, h } => if w as u32 != self.acked_size.0 || h as u32 != self.acked_size.1 {
                out.protocol_error(
                    self.client,
                    self.id,
                    DIMENSIONS_MISMATCH,
                    "buffer does not match the configured size",
                );
                false
            } else {
                true
            },
        }
    }

    /// A commit was applied. The newest mapped lock surface of the holder takes the
    /// keyboard: the result says whether this one does.
    pub fn after_apply(&mut self, mapped: bool, holder: Option<u32>) -> (r: bool)
        ensures
            *final(self) == (LockSurface { mapped, ..*old(self) }),
            r == (mapped && holder == Some(old(self).client)),
    {
        self.mapped = mapped;
        match holder {
            Some(c) => mapped && c == self.client,
            None => false,
        }
    }
}

/// How a request for a lock surface ends.
#[derive(Clone, Copy, Debug, PartialEq, Eq, Structural)]
pub enum Given {
    /// Refused, nothing changed.
    Refused,
    /// Refused, but the surface has the lock role now.
    RoleOnly,
    /// The surface has the role, and the lock surface stands last in the list.
    Made,
}

pub open spec fn on_output(name: Seq<char>) -> spec_fn(LockSurface) -> bool {
    |l: LockSurface| l.output_name@ == name
}

pub open spec fn off_output(name: Seq<char>) -> spec_fn(LockSurface) -> bool {
    |l: LockSurface| l.output_name@ != name
}

pub open spec fn other_than(name: Seq<char>) -> spec_fn(String) -> bool {
    |n: String| n@ != name
}

/// A lock surface as it starts out.
pub open spec fn surface_starts(l: LockSurface, id: ObjectId, client: u32, surface: u64, name: Seq<char>) -> bool {
    &&& l.id == id
    &&& l.client == client
    &&& l.surface == surface
    &&& l.output_name@ == name
    &&& l.next_serial == 1
    &&& l.last_sent == 0
    &&& l.acked == 0
    &&& l.acked_size == (0u32, 0u32)
    &&& l.sent@.len() == 0
    &&& !l.mapped
}

/// What a request for a lock surface breaks, and whether the role was given first.
pub open spec fn surface_fault(l: SessionLock, s: SurfaceFacts, name: Seq<char>) -> Option<(u32, Seq<char>, Given)> {
    if s.live_role {
        Some((ROLE, "the surface already has a role object"@, Given::Refused))
    } else if s.other_role is Some {
        Some((ROLE, "the surface already has the "@ + (s.other_role->0)@ + " role"@, Given::Refused))
    } else if s.has_buffer {
        Some(
            (
                ALREADY_CONSTRUCTED,
                "the surface already has a buffer attached or committed"@,
                Given::RoleOnly,
            ),
        )
    } else if first_slot(l.surfaces@, on_output(name)) is Some {
        Some((DUPLICATE_OUTPUT, "the output already has a lock surface"@, Given::RoleOnly))
    } else {
        None
    }
}

impl SessionLock {
    /// A lock surface for an output, one per output. `surface` and `output` are what
    /// the ids name; `size` is that of the output. A lock that was turned away
    /// configures nothing.
    pub fn get_lock_surface(
        &mut self,
        out: &mut Out,
        id: ObjectId,
        surface_id: ObjectId,
        output_id: ObjectId,
        surface: Option<SurfaceFacts>,
        output: Option<String>,
        size: (u32, u32),
    ) -> (r: Given)
        ensures
            surfaces_wf(old(self).surfaces@) ==> surfaces_wf(final(self).surfaces@),
            !(r is Made) ==> *final(self) == *old(self),
            match (surface, output) {
                (None, _) => r is Refused && told_invalid(*old(out), *final(out), old(self).client, surface_id),
                (Some(_), None) => r is Refused && told_invalid(*old(out), *final(out), old(self).client, output_id),
                (Some(s), Some(name)) => match surface_fault(*old(self), s, name@) {
                    Some((code, text, given)) => r == given && refused(
                        *old(out),
                        *final(out),
                        old(self).client,
                        old(self).id,
                        code,
                        text,
                    ),
                    None => {
                        let n = old(self).surfaces@.len() as int;
                        &&& r is Made
                        &&& *final(self) == (SessionLock { surfaces: final(self).surfaces, ..*old(self) })
                        &&& final(self).surfaces@.len() == n + 1
                        &&& final(self).surfaces@.take(n) == old(self).surfaces@
                        &&& exists|fresh: LockSurface| {
                            &&& #[trigger] surface_starts(fresh, id, old(self).client, s.uid, name@)
                            &&& if old(self).finished {
                                &&& final(self).surfaces@[n] == fresh
                                &&& final(out).sent@ == old(out).sent@
                            } else {
                                &&& configured(fresh, final(self).surfaces@[n], size.0, size.1)
                                &&& final(out).sent@ == old(out).sent@.push(configure_event(fresh, size.0, size.1))
                            }
                        }
                    },
                },
            },
    {
        let s: SurfaceFacts = match surface {
            None => {
                out.invalid_object(self.client, surface_id);
                return Given::Refused;
            },
            Some(s) => s,
        };
        let name: String = match output {
            None => {
                out.invalid_object(self.client, output_id);
                return Given::Refused;
            },
            Some(n) => n,
        };
        if s.live_role {
            out.protocol_error(self.client, self.id, ROLE, "the surface already has a role object");
            return Given::Refused;
        }
        match &s.other_role {
            Some(old_role) => {
                let text: String = "the surface already has the ".to_owned().concat(old_role.as_str()).concat(
                    " role",
                );
                out.protocol_error(self.client, self.id, ROLE, text.as_str());
                return Given::Refused;
            },
            None => {},
        }
        if s.has_buffer {
            out.protocol_error(
                self.client,
                self.id,
                ALREADY_CONSTRUCTED,
                "the surface already has a buffer attached or committed",
            );
            return Given::RoleOnly;
        }
        if any(
            &self.surfaces,
            |l: &LockSurface| -> (b: bool) ensures b == (l.output_name@ == name@) { same_text(l.output_name.as_str(), name.as_str()) },
            Ghost(on_output(name@)),
        ) {
            out.protocol_error(self.client, self.id, DUPLICATE_OUTPUT, "the output already has a lock surface");
            return Given::RoleOnly;
        }
        let mut ls = LockSurface {
            id,
            client: self.client,
            surface: s.uid,
            output_name: name,
            next_serial: 1,
            last_sent: 0,
            acked: 0,
            sent: Vec::new(),
            acked_size: (0, 0),
            mapped: false,
        };
        let ghost fresh = ls;
        assert(surface_starts(fresh, id, old(self).client, s.uid, name@));
        if !self.finished {
            ls.configure(out, size.0, size.1);
        }
        self.surfaces.push(ls);
        assert(self.surfaces@.take(old(self).surfaces@.len() as int) =~= old(self).surfaces@);
        Given::Made
    }
}

pub open spec fn held_by(slot: LockSlot, client: u32, id: ObjectId) -> bool {
    slot.lock is Some && slot.lock->0.id == id && slot.lock->0.client == client
}

fn holds(slot: &LockSlot, client: u32, id: ObjectId) -> (r: bool)
    ensures
        r == held_by(*slot, client, id),
{
    match &slot.lock {
        Some(cur) => cur.id.0 == id.0 && cur.client == client,
        None => false,
    }
}

impl LockSlot {
    pub fn new() -> (s: LockSlot)
        ensures
            s.lock is None,
    {
        LockSlot { lock: None }
    }

    /// The client that holds the lock.
    pub fn holder(&self) -> (r: Option<u32>)
        ensures
            r == (match self.lock {
                Some(l) => Some(l.client),
                None => None::<u32>,
            }),
    {
        match &self.lock {
            Some(l) => Some(l.client),
            None => None,
        }
    }

    /// Unlocks, for a lock object that was told it is locked (only the one in the
    /// slot ever is). `true`: the object goes, focus returns to the windows.
    pub fn unlock_and_destroy(&mut self, out: &mut Out, client: u32, id: ObjectId) -> (r: bool)
        ensures
            r == (held_by(*old(self), client, id) && old(self).lock->0.locked_sent),
            r ==> final(self).lock is None && final(out).sent@ == old(out).sent@,
            !r ==> *final(self) == *old(self) && refused(
                *old(out),
                *final(out),
                client,
                id,
                INVALID_UNLOCK,
                "unlock before the locked event"@,
            ),
    {
        let told: bool = match &self.lock {
            Some(cur) => cur.id.0 == id.0 && cur.client == client && cur.locked_sent,
            None => false,
        };
        if !told {
            out.protocol_error(client, id, INVALID_UNLOCK, "unlock before the locked event");
            return false;
        }
        self.lock = None;
        true
    }

    /// Withdraws a lock attempt, which frees the slot if it was in it. `true`: the
    /// object goes. A lock that was told it is locked has to unlock instead.
    pub fn destroy(&mut self, out: &mut Out, client: u32, id: ObjectId) -> (r: bool)
        ensures
            r == !(held_by(*old(self), client, id) && old(self).lock->0.locked_sent),
            !r ==> *final(self) == *old(self) && refused(
                *old(out),
                *final(out),
                client,
                id,
                INVALID_DESTROY,
                "destroy while locked"@,
            ),
            r ==> final(out).sent@ == old(out).sent@,
            r && held_by(*old(self), client, id) ==> final(self).lock is None,
            r && !held_by(*old(self), client, id) ==> *final(self) == *old(self),
    {
        if !holds(self, client, id) {
            return true;
        }
        let told: bool = match &self.lock {
            Some(cur) => cur.locked_sent,
            None => false,
        };
        if told {
            out.protocol_error(client, id, INVALID_DESTROY, "destroy while locked");
            return false;
        }
        self.lock = None;
        true
    }

    /// A lock surface is destroyed.
    pub fn surface_destroyed(&mut self, client: u32, id: ObjectId)
        ensures
            old(self).wf() ==> final(self).wf(),
            old(self).lock is None ==> *final(self) == *old(self),
            old(self).lock matches Some(l) ==> {
                &&& final(self).lock is Some
                &&& final(self).lock->0.surfaces@ == l.surfaces@.filter(not_object(client, id))
                &&& final(self).lock->0 == (SessionLock { surfaces: final(self).lock->0.surfaces, ..l })
            },
    {
        match self.lock.take() {
            None => {},
            Some(l) => {
                let mut lk: SessionLock = l;
                retain(
                    &mut lk.surfaces,
                    |s: &LockSurface| -> (b: bool) ensures b == !(s.id == id && s.client == client) { !(s.id.0 == id.0 && s.client == client) },
                    Ghost(not_object(client, id)),
                );
                proof {
                    thinning_keeps_wf(l.surfaces@, not_object(client, id));
                }
                self.lock = Some(lk);
            },
        }
    }
}

proof fn thinning_keeps_wf(s: Seq<LockSurface>, p: spec_fn(LockSurface) -> bool)
    ensures
        surfaces_wf(s) ==> surfaces_wf(s.filter(p)),
{
    if surfaces_wf(s) {
        assert forall|i: int| 0 <= i < s.filter(p).len() implies (#[trigger] s.filter(p)[i]).wf() by {
            filter_members(s, p, s.filter(p)[i]);
            assert(s.filter(p).contains(s.filter(p)[i]));
            let j = choose|j: int| 0 <= j < s.len() && s[j] == s.filter(p)[i];
            assert(s[j].wf());
        }
    }
}

pub open spec fn not_object(client: u32, id: ObjectId) -> spec_fn(LockSurface) -> bool {
    |s: LockSurface| !(s.id == id && s.client == client)
}

/// How far a lock has come.
pub ghost struct Progress {
    pub pending: Seq<Seq<char>>,
    pub staged: Seq<Seq<char>>,
    pub told: bool,
    pub dead: bool,
}

impl SessionLock {
    pub open spec fn progress(self) -> Progress {
        Progress {
            pending: texts(self.pending_outputs@),
            staged: texts(self.staged_outputs@),
            told: self.locked_sent,
            dead: self.holder_dead,
        }
    }
}

/// An output composes a locked frame.
pub open spec fn after_composing(p: Progress, name: Seq<char>) -> Progress {
    Progress { staged: if p.staged.contains(name) { p.staged } else { p.staged.push(name) }, ..p }
}

pub open spec fn unlike(name: Seq<char>) -> spec_fn(Seq<char>) -> bool {
    |n: Seq<char>| n != name
}

/// An output owes nothing any more.
pub open spec fn excused(p: Progress, name: Seq<char>) -> Progress {
    let left = p.pending.filter(unlike(name));
    Progress { pending: left, told: left.len() == 0, ..p }
}

/// An output presents a frame: a locked one, where it composed one.
pub open spec fn after_presenting(p: Progress, name: Seq<char>) -> Progress {
    if p.told || p.dead || !p.staged.contains(name) {
        p
    } else {
        excused(p, name)
    }
}

/// An output goes away.
pub open spec fn after_removing(p: Progress, name: Seq<char>) -> Progress {
    if p.told || p.dead {
        p
    } else {
        excused(p, name)
    }
}

/// What the client hears of a step: that it is locked, when it came to that.
pub open spec fn news(l: SessionLock, after: Progress) -> Seq<Sent> {
    if after.told && !l.locked_sent {
        seq![sent(l.client, l.id, Event::LockLocked)]
    } else {
        Seq::empty()
    }
}

proof fn texts_thinned(v: Seq<String>, name: Seq<char>)
    ensures
        texts(v.filter(other_than(name))) == texts(v).filter(unlike(name)),
    decreases v.len(),
{
    reveal(Seq::filter);
    if v.len() > 0 {
        texts_thinned(v.drop_last(), name);
        assert(texts(v).drop_last() =~= texts(v.drop_last()));
        assert(texts(v).last() == v.last()@);
        if other_than(name)(v.last()) {
            assert(texts(v.drop_last().filter(other_than(name)).push(v.last())) =~= texts(
                v.drop_last().filter(other_than(name)),
            ).push(v.last()@));
        }
    } else {
        assert(texts(v) =~= Seq::<Seq<char>>::empty());
    }
    assert(texts(v.filter(other_than(name))) =~= texts(v).filter(unlike(name)));
}

fn lists(v: &Vec<String>, name: &str) -> (r: bool)
    ensures
        r == texts(v@).contains(name@),
{
    let ghost p = |n: String| n@ == name@;
    let r: bool = any(v, |n: &String| -> (b: bool) ensures b == (n@ == name@) { same_text(n.as_str(), name) }, Ghost(p));
    proof {
        if r {
            let j = choose|j: int| 0 <= j < v@.len() && p(#[trigger] v@[j]);
            assert(texts(v@)[j] == name@);
        }
        if texts(v@).contains(name@) {
            let j = choose|j: int| 0 <= j < texts(v@).len() && texts(v@)[j] == name@;
            assert(p(v@[j]));
        }
    }
    r
}

impl SessionLock {
    fn excuse(&mut self, out: &mut Out, output: &str)
        requires
            !old(self).locked_sent,
            !old(self).holder_dead,
        ensures
            final(self).progress() == excused(old(self).progress(), output@),
            *final(self) == (SessionLock {
                pending_outputs: final(self).pending_outputs,
                locked_sent: final(self).locked_sent,
                ..*old(self)
            }),
            final(out).sent@ == old(out).sent@ + news(*old(self), final(self).progress()),
    {
        let ghost start = self.pending_outputs@;
        retain(
            &mut self.pending_outputs,
            |n: &String| -> (b: bool) ensures b == (n@ != output@) { !same_text(n.as_str(), output) },
            Ghost(other_than(output@)),
        );
        proof {
            texts_thinned(start, output@);
        }
        if self.pending_outputs.len() == 0 {
            self.locked_sent = true;
            out.event(self.client, self.id, Event::LockLocked);
        }
        assert(out.sent@ =~= old(out).sent@ + news(*old(self), self.progress()));
    }
}

pub open spec fn shows(name: Seq<char>) -> spec_fn(LockSurface) -> bool {
    |l: LockSurface| l.output_name@ == name && l.mapped
}

/// The surface an output draws while locked: the mapped lock surface on it, or nothing.
pub open spec fn shown_on(l: SessionLock, name: Seq<char>) -> Option<u64> {
    match first_slot(l.surfaces@, shows(name)) {
        Some(k) => Some(l.surfaces@[k].surface),
        None => None,
    }
}

impl SessionLock {
    pub fn shown_on(&self, output: &str) -> (r: Option<u64>)
        ensures
            r == shown_on(*self, output@),
    {
        match find(
            &self.surfaces,
            |s: &LockSurface| -> (b: bool) ensures b == (s.output_name@ == output@ && s.mapped) { same_text(s.output_name.as_str(), output) && s.mapped },
            Ghost(shows(output@)),
        ) {
            Some(k) => Some(self.surfaces[k].surface),
            None => None,
        }
    }
}

/// What an output draws while locked. Asking stages the output, as its next frame is a
/// locked one.
pub fn compose_locked(slot: &mut LockSlot, output: &str) -> (r: Option<u64>)
    ensures
        old(slot).lock is None ==> r is None && *final(slot) == *old(slot),
        old(slot).lock matches Some(l) ==> {
            &&& final(slot).lock is Some
            &&& final(slot).lock->0.progress() == after_composing(l.progress(), output@)
            &&& final(slot).lock->0 == (SessionLock { staged_outputs: final(slot).lock->0.staged_outputs, ..l })
            &&& r == shown_on(l, output@)
        },
{
    match slot.lock.take() {
        None => None,
        Some(l) => {
            let mut lk: SessionLock = l;
            let ghost staged = lk.staged_outputs@;
            if !lists(&lk.staged_outputs, output) {
                lk.staged_outputs.push(output.to_owned());
                assert(texts(lk.staged_outputs@) =~= texts(staged).push(output@));
            }
            let r: Option<u64> = lk.shown_on(output);
            slot.lock = Some(lk);
            r
        },
    }
}

/// `b` is `a` after an output presented a frame.
pub open spec fn presented(a: LockSlot, b: LockSlot, name: Seq<char>) -> bool {
    match a.lock {
        None => b == a,
        Some(l) => {
            &&& b.lock is Some
            &&& b.lock->0.progress() == after_presenting(l.progress(), name)
            &&& b.lock->0 == (SessionLock {
                pending_outputs: b.lock->0.pending_outputs,
                locked_sent: b.lock->0.locked_sent,
                ..l
            })
        },
    }
}

/// What the lock's client hears when an output presented a frame.
pub open spec fn presented_news(a: LockSlot, name: Seq<char>) -> Seq<Sent> {
    match a.lock {
        None => Seq::empty(),
        Some(l) => news(l, after_presenting(l.progress(), name)),
    }
}

/// An output presented a frame. The last one that owed a locked frame completes the
/// lock.
pub fn output_presented(slot: &mut LockSlot, out: &mut Out, output: &str)
    ensures
        presented(*old(slot), *final(slot), output@),
        final(out).sent@ == old(out).sent@ + presented_news(*old(slot), output@),
{
    match slot.lock.take() {
        None => {},
        Some(l) => {
            let mut lk: SessionLock = l;
            if !lk.locked_sent && !lk.holder_dead && lists(&lk.staged_outputs, output) {
                lk.excuse(out, output);
            }
            slot.lock = Some(lk);
        },
    }
}

/// `b` is `a` after an output went away.
pub open spec fn removed(a: LockSlot, b: LockSlot, name: Seq<char>) -> bool {
    match a.lock {
        None => b == a,
        Some(l) => {
            &&& b.lock is Some
            &&& b.lock->0.progress() == after_removing(l.progress(), name)
            &&& b.lock->0.surfaces@ == l.surfaces@.filter(off_output(name))
            &&& b.lock->0 == (SessionLock {
                pending_outputs: b.lock->0.pending_outputs,
                locked_sent: b.lock->0.locked_sent,
                surfaces: b.lock->0.surfaces,
                ..l
            })
        },
    }
}

/// What the lock's client hears when an output went away.
pub open spec fn removed_news(a: LockSlot, name: Seq<char>) -> Seq<Sent> {
    match a.lock {
        None => Seq::empty(),
        Some(l) => news(l, after_removing(l.progress(), name)),
    }
}

/// An output is gone: it owes nothing, and its lock surface goes with it.
pub fn output_removed(slot: &mut LockSlot, out: &mut Out, output: &str)
    ensures
        old(slot).wf() ==> final(slot).wf(),
        removed(*old(slot), *final(slot), output@),
        final(out).sent@ == old(out).sent@ + removed_news(*old(slot), output@),
{
    match slot.lock.take() {
        None => {},
        Some(l) => {
            let mut lk: SessionLock = l;
            retain(
                &mut lk.surfaces,
                |s: &LockSurface| -> (b: bool) ensures b == (s.output_name@ != output@) { !same_text(s.output_name.as_str(), output) },
                Ghost(off_output(output@)),
            );
            proof {
                thinning_keeps_wf(l.surfaces@, off_output(output@));
            }
            if !lk.locked_sent && !lk.holder_dead {
                lk.excuse(out, output);
            }
            slot.lock = Some(lk);
        },
    }
}

/// The configures that the lock surfaces of an output are sent, in order.
pub open spec fn configures_on(surfaces: Seq<LockSurface>, name: Seq<char>, w: u32, h: u32) -> Seq<Sent>
    decreases surfaces.len(),
{
    if surfaces.len() == 0 {
        Seq::empty()
    } else {
        let front = configures_on(surfaces.drop_last(), name, w, h);
        if surfaces.last().output_name@ == name {
            front.push(configure_event(surfaces.last(), w, h))
        } else {
            front
        }
    }
}

/// `b` is `a` with one more configure on each surface of the output.
pub open spec fn reconfigured(a: Seq<LockSurface>, b: Seq<LockSurface>, name: Seq<char>, w: u32, h: u32) -> bool {
    &&& a.len() == b.len()
    &&& forall|i: int|
        0 <= i < a.len() ==> if a[i].output_name@ == name {
            configured(a[i], #[trigger] b[i], w, h)
        } else {
            b[i] == a[i]
        }
}

/// An output changed size while locked: its lock surface has to follow.
pub fn output_resized(slot: &mut LockSlot, out: &mut Out, output: &str, size: (u32, u32))
    ensures
        old(slot).wf() ==> final(slot).wf(),
        old(slot).lock is None ==> *final(slot) == *old(slot) && final(out).sent@ == old(out).sent@,
        old(slot).lock matches Some(l) ==> {
            &&& final(slot).lock is Some
            &&& reconfigured(l.surfaces@, final(slot).lock->0.surfaces@, output@, size.0, size.1)
            &&& final(slot).lock->0 == (SessionLock { surfaces: final(slot).lock->0.surfaces, ..l })
            &&& final(out).sent@ == old(out).sent@ + configures_on(l.surfaces@, output@, size.0, size.1)
        },
{
    match slot.lock.take() {
        None => {},
        Some(l) => {
            let mut lk: SessionLock = l;
            reconfigure(&mut lk.surfaces, out, output, size);
            slot.lock = Some(lk);
        },
    }
}

fn reconfigure(surfaces: &mut Vec<LockSurface>, out: &mut Out, output: &str, size: (u32, u32))
    ensures
        reconfigured(old(surfaces)@, final(surfaces)@, output@, size.0, size.1),
        final(out).sent@ == old(out).sent@ + configures_on(old(surfaces)@, output@, size.0, size.1),
{
    let ghost all = surfaces@;
    let ghost start = out.sent@;
    let n: usize = surfaces.len();
    for i in 0..n
        invariant
            n == all.len(),
            all == old(surfaces)@,
            start == old(out).sent@,
            surfaces@.len() == n,
            forall|j: int| i <= j < n ==> surfaces@[j] == all[j],
            forall|j: int|
                0 <= j < i ==> if all[j].output_name@ == output@ {
                    configured(all[j], #[trigger] surfaces@[j], size.0, size.1)
                } else {
                    surfaces@[j] == all[j]
                },
            out.sent@ == start + configures_on(all.take(i as int), output@, size.0, size.1),
    {
        assert(all.take(i + 1).drop_last() =~= all.take(i as int));
        if same_text(surfaces[i].output_name.as_str(), output) {
            surfaces[i].configure(out, size.0, size.1);
        }
    }
    assert(all.take(n as int) =~= all);
}

/// `b` is `a` after a client died: a lock that it held has no holder and no surfaces
/// any more.
pub open spec fn bereft(a: LockSlot, b: LockSlot, client: u32) -> bool {
    if a.lock is Some && a.lock->0.client == client {
        &&& b.lock is Some
        &&& b.lock->0.surfaces@.len() == 0
        &&& b.lock->0 == (SessionLock { holder_dead: true, surfaces: b.lock->0.surfaces, ..a.lock->0 })
    } else {
        b == a
    }
}

/// The locking client died: the session stays locked, outputs go blank, and the next
/// lock request takes the slot over. `true` when there is something to redraw.
pub fn drop_client(slot: &mut LockSlot, client: u32) -> (r: bool)
    ensures
        r == (old(slot).lock is Some && old(slot).lock->0.client == client),
        bereft(*old(slot), *final(slot), client),
{
    match slot.lock.take() {
        None => false,
        Some(l) => {
            let mut lk: SessionLock = l;
            let hit: bool = lk.client == client;
            if hit {
                lk.holder_dead = true;
                lk.surfaces = Vec::new();
            }
            slot.lock = Some(lk);
            hit
        },
    }
}

pub open spec fn hit(outs: Seq<Output>, headless: (u32, u32), x: i32, y: i32) -> spec_fn(LockSurface) -> bool {
    |l: LockSurface| l.mapped && output_rect_spec(outs, headless, l.output_name@).contains_spec(x as int, y as int)
}

/// The lock surface under the pointer, and the point within it: while locked nothing
/// else can be hit.
pub fn surface_at(slot: &LockSlot, outs: &Vec<Output>, headless: (u32, u32), x: i32, y: i32) -> (r: Option<
    (u64, i32, i32),
>)
    requires
        glass_fits(outs@, headless),
    ensures
        match slot.lock {
            None => r is None,
            Some(l) => match first_slot(l.surfaces@, hit(outs@, headless, x, y)) {
                None => r is None,
                Some(k) => {
                    let rect = output_rect_spec(outs@, headless, l.surfaces@[k].output_name@);
                    r == Some((l.surfaces@[k].surface, (x - rect.x1) as i32, (y - rect.y1) as i32))
                },
            },
        },
{
    match &slot.lock {
        None => None,
        Some(l) => match find(
            &l.surfaces,
            |s: &LockSurface| -> (b: bool) ensures b == hit(outs@, headless, x, y)(*s) { s.mapped && output_rect(outs, headless, s.output_name.as_str()).contains(x, y) },
            Ghost(hit(outs@, headless, x, y)),
        ) {
            None => None,
            Some(k) => {
                let rect: Rect = output_rect(outs, headless, l.surfaces[k].output_name.as_str());
                Some((l.surfaces[k].surface, x - rect.x1, y - rect.y1))
            },
        },
    }
}

/// What happens to the outputs of a locked session.
pub ghost enum Glass {
    /// a frame for glass was composed, and so a locked one
    Composed(Seq<char>),
    /// a frame that the kernel took is over
    Presented(Seq<char>),
    Removed(Seq<char>),
}

pub open spec fn step(p: Progress, g: Glass) -> Progress {
    match g {
        Glass::Composed(n) => after_composing(p, n),
        Glass::Presented(n) => after_presenting(p, n),
        Glass::Removed(n) => after_removing(p, n),
    }
}

/// The progress after a history.
pub open spec fn run(p: Progress, history: Seq<Glass>) -> Progress
    decreases history.len(),
{
    if history.len() == 0 {
        p
    } else {
        step(run(p, history.drop_last()), history.last())
    }
}

/// The output composed a locked frame at `i` and presented that very frame at `j`: none of
/// its frames was composed or presented in between.
pub open spec fn locked_frame(history: Seq<Glass>, name: Seq<char>, i: int, j: int) -> bool {
    &&& 0 <= i < j < history.len()
    &&& history[i] == Glass::Composed(name)
    &&& history[j] == Glass::Presented(name)
    &&& forall|k: int|
        i < k < j ==> #[trigger] history[k] != Glass::Composed(name) && history[k] != Glass::Presented(name)
}

/// In the history the output went away, or presented a locked frame.
pub open spec fn settled(history: Seq<Glass>, name: Seq<char>) -> bool {
    ||| history.contains(Glass::Removed(name))
    ||| exists|i: int, j: int| locked_frame(history, name, i, j)
}

/// Between a locked frame that was composed and a later frame that was presented lies one
/// that was both.
proof fn some_frame_was_both(history: Seq<Glass>, name: Seq<char>, i: int, j: int)
    requires
        0 <= i < j < history.len(),
        history[i] == Glass::Composed(name),
        history[j] == Glass::Presented(name),
    ensures
        exists|a: int, b: int| locked_frame(history, name, a, b),
    decreases j - i,
{
    if exists|k: int| i < k < j && #[trigger] history[k] == Glass::Presented(name) {
        let k = choose|k: int| i < k < j && #[trigger] history[k] == Glass::Presented(name);
        some_frame_was_both(history, name, i, k);
    } else if exists|k: int| i < k < j && #[trigger] history[k] == Glass::Composed(name) {
        let k = choose|k: int| i < k < j && #[trigger] history[k] == Glass::Composed(name);
        some_frame_was_both(history, name, k, j);
    } else {
        assert(locked_frame(history, name, i, j));
    }
}

proof fn settled_stays(history: Seq<Glass>, g: Glass, name: Seq<char>)
    requires
        settled(history, name),
    ensures
        settled(history.push(g), name),
{
    let h = history.push(g);
    if history.contains(Glass::Removed(name)) {
        let i = choose|i: int| 0 <= i < history.len() && history[i] == Glass::Removed(name);
        assert(h[i] == Glass::Removed(name));
    } else {
        let (i, j) = choose|i: int, j: int| locked_frame(history, name, i, j);
        assert forall|k: int| i < k < j implies #[trigger] h[k] != Glass::Composed(name) && h[k] != Glass::Presented(
            name,
        ) by {
            assert(h[k] == history[k]);
        }
        assert(locked_frame(h, name, i, j));
    }
}

proof fn history_is_kept(p: Progress, history: Seq<Glass>)
    requires
        p.staged.len() == 0,
        !p.told,
        !p.dead,
    ensures
        ({
            let q = run(p, history);
            &&& !q.dead
            &&& q.told ==> q.pending.len() == 0
            &&& forall|n: Seq<char>| #[trigger] q.staged.contains(n) ==> history.contains(Glass::Composed(n))
            &&& forall|n: Seq<char>| #[trigger]
                p.pending.contains(n) ==> q.pending.contains(n) || settled(history, n)
        }),
    decreases history.len(),
{
    if history.len() > 0 {
        let past = history.drop_last();
        let g = history.last();
        history_is_kept(p, past);
        let a = run(p, past);
        let b = run(p, history);
        assert(history =~= past.push(g));
        assert forall|n: Seq<char>| #[trigger] b.staged.contains(n) implies history.contains(Glass::Composed(n)) by {
            if a.staged.contains(n) {
                let i = choose|i: int| 0 <= i < past.len() && past[i] == Glass::Composed(n);
                assert(history[i] == Glass::Composed(n));
            } else {
                assert(g == Glass::Composed(n)) by {
                    let i = choose|i: int| 0 <= i < b.staged.len() && b.staged[i] == n;
                    if i < a.staged.len() {
                        assert(a.staged[i] == n);
                    }
                }
                assert(history[history.len() - 1] == g);
            }
        }
        assert forall|n: Seq<char>| #[trigger] p.pending.contains(n) implies b.pending.contains(n) || settled(
            history,
            n,
        ) by {
            if settled(past, n) {
                settled_stays(past, g, n);
            } else if !b.pending.contains(n) {
                let name = match g {
                    Glass::Composed(m) => m,
                    Glass::Presented(m) => m,
                    Glass::Removed(m) => m,
                };
                filter_members(a.pending, unlike(name), n);
                assert(n == name);
                assert(history[history.len() - 1] == g);
                if g is Presented {
                    assert(past.contains(Glass::Composed(n)));
                    let i = choose|i: int| 0 <= i < past.len() && past[i] == Glass::Composed(n);
                    assert(history[i] == Glass::Composed(n));
                    some_frame_was_both(history, n, i, history.len() - 1);
                }
            }
        }
    }
}

/// However composing, presenting and removal of outputs interleave: when the client
/// hears that it is locked, every output that was there at the lock has presented a frame
/// that it composed locked, or is gone.
pub proof fn locked_waits_for_every_output(outs: Seq<Seq<char>>, history: Seq<Glass>, name: Seq<char>)
    requires
        outs.len() > 0,
        outs.contains(name),
        run(Progress { pending: outs, staged: Seq::empty(), told: false, dead: false }, history).told,
    ensures
        settled(history, name),
{
    let p = Progress { pending: outs, staged: Seq::empty(), told: false, dead: false };
    history_is_kept(p, history);
    assert(p.pending.contains(name));
    assert(run(p, history).pending.len() == 0);
}

/// The locked event comes no earlier: a step of the glass that sends it is one after which
/// every output that was there at the lock has presented a frame that it composed locked,
/// or is gone.
pub proof fn locked_is_sent_after_locked_frames(
    l: SessionLock,
    outs: Seq<Seq<char>>,
    history: Seq<Glass>,
    g: Glass,
    name: Seq<char>,
)
    requires
        outs.len() > 0,
        outs.contains(name),
        l.progress() == run(Progress { pending: outs, staged: Seq::empty(), told: false, dead: false }, history),
        news(l, step(l.progress(), g)).len() > 0,
    ensures
        settled(history.push(g), name),
        news(l, step(l.progress(), g)) == seq![sent(l.client, l.id, Event::LockLocked)],
{
    assert(history.push(g).drop_last() =~= history);
    locked_waits_for_every_output(outs, history.push(g), name);
}

/// Told once, never again: whatever the glass does after the locked event sends nothing.
pub proof fn locked_is_sent_once(l: SessionLock, g: Glass)
    requires
        l.locked_sent,
    ensures
        news(l, step(l.progress(), g)) == Seq::<Sent>::empty(),
        step(l.progress(), g).told,
{
}

/// Each configure of a lock surface has a serial one above the last, and not zero, until
/// the serials wrap around.
pub proof fn lock_serials_go_up(a: LockSurface, b: LockSurface, w: u32, h: u32)
    requires
        a.wf(),
        configured(a, b, w, h),
        a.last_sent < u32::MAX,
    ensures
        configure_event(a, w, h) == sent(
            a.client,
            a.id,
            Event::LockConfigure { serial: (a.last_sent + 1) as u32, width: w, height: h },
        ),
        b.last_sent == a.last_sent + 1,
        b.last_sent != 0,
        b.wf(),
{
}

/// A dead locker does not unlock the session: whoever dies, a locked session stays
/// locked. If it was the holder, nothing of it is shown or hit any more.
pub proof fn dead_lockers_leave_the_session_locked(a: LockSlot, b: LockSlot, client: u32)
    requires
        a.lock is Some,
        bereft(a, b, client),
    ensures
        b.lock is Some,
        a.lock->0.client == client ==> !held_alive(b) && b.lock->0.surfaces@.len() == 0,
        a.lock->0.client != client ==> b == a,
{
}

/// A crashed locker can restart: after the holder died, the next lock request takes the
/// slot over, whoever makes it.
pub proof fn crashed_lockers_are_replaced(
    a: LockSlot,
    b: LockSlot,
    c: LockSlot,
    id: ObjectId,
    client: u32,
    outs: Vec<String>,
)
    requires
        a.lock is Some,
        bereft(a, b, a.lock->0.client),
        asked(b, c, id, client, outs),
    ensures
        taken(c, id, client, outs),
        held_alive(c),
{
}

/// While the holder lives, every other lock request changes nothing.
pub proof fn live_lockers_win(a: LockSlot, b: LockSlot, id: ObjectId, client: u32, outs: Vec<String>)
    requires
        held_alive(a),
        asked(a, b, id, client, outs),
    ensures
        b == a,
{
}

} // verus!
