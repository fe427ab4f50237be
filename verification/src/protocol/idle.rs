//! Idle tracking: notifications after a time without input, and surfaces that hold
//! the screen awake.
use crate::list::{any, filter_members, retain};
use crate::protocol::events::{sent, told_invalid, Event, Out, Sent};
use crate::protocol::interfaces::Interface;
use crate::protocol::ObjectId;
use vstd::prelude::*;

verus! {

/// A client that wants to know when the seat falls idle.
#[derive(Clone, Copy, Debug, PartialEq, Eq, Structural)]
pub struct IdleNotification {
    pub id: ObjectId,
    pub client: u32,
    pub timeout_ms: u32,
    pub idled: bool,
}

/// A surface that keeps the seat from falling idle while it is mapped.
#[derive(Clone, Copy, Debug, PartialEq, Eq, Structural)]
pub struct IdleInhibitor {
    pub id: ObjectId,
    pub client: u32,
    /// identity of the surface, never reused
    pub surface: u64,
}

/// Idle state of the seat.
pub struct IdleState {
    pub notifications: Vec<IdleNotification>,
    pub inhibitors: Vec<IdleInhibitor>,
    /// time of the last input event, in nanoseconds
    pub last_activity: u64,
    /// some notification may be idled; keeps the work per input event small
    pub any_idled: bool,
}

pub open spec fn not_of(client: u32) -> spec_fn(IdleNotification) -> bool {
    |n: IdleNotification| n.client != client
}

pub open spec fn inhibitor_not_of(client: u32) -> spec_fn(IdleInhibitor) -> bool {
    |n: IdleInhibitor| n.client != client
}

pub open spec fn holds_awake(mapped: Seq<u64>) -> spec_fn(IdleInhibitor) -> bool {
    |i: IdleInhibitor| mapped.contains(i.surface)
}

/// Whether a mapped surface inhibits idling.
pub open spec fn inhibited_spec(inhibitors: Seq<IdleInhibitor>, mapped: Seq<u64>) -> bool {
    exists|j: int| 0 <= j < inhibitors.len() && holds_awake(mapped)(#[trigger] inhibitors[j])
}

/// The notifications that learn of resumed activity, in order.
pub open spec fn resumes(ns: Seq<IdleNotification>) -> Seq<Sent>
    decreases ns.len(),
{
    if ns.len() == 0 {
        Seq::empty()
    } else {
        let n = ns.last();
        let front = resumes(ns.drop_last());
        if n.idled { front.push(sent(n.client, n.id, Event::Resumed)) } else { front }
    }
}

pub open spec fn awake(ns: Seq<IdleNotification>) -> Seq<IdleNotification> {
    ns.map_values(|n: IdleNotification| IdleNotification { idled: false, ..n })
}

/// Falls idle after this many milliseconds without input.
pub open spec fn falls(n: IdleNotification, idle_ms: u64) -> bool {
    !n.idled && idle_ms >= n.timeout_ms
}

pub open spec fn idles(ns: Seq<IdleNotification>, idle_ms: u64) -> Seq<Sent>
    decreases ns.len(),
{
    if ns.len() == 0 {
        Seq::empty()
    } else {
        let n = ns.last();
        let front = idles(ns.drop_last(), idle_ms);
        if falls(n, idle_ms) { front.push(sent(n.client, n.id, Event::Idled)) } else { front }
    }
}

pub open spec fn fallen(ns: Seq<IdleNotification>, idle_ms: u64) -> Seq<IdleNotification> {
    ns.map_values(|n: IdleNotification| IdleNotification { idled: n.idled || falls(n, idle_ms), ..n })
}

/// Milliseconds since the last input.
pub open spec fn idle_ms(now: u64, last: u64) -> u64 {
    if now >= last { ((now - last) / 1_000_000) as u64 } else { 0 }
}

pub open spec fn some_idled(ns: Seq<IdleNotification>) -> bool {
    exists|i: int| 0 <= i < ns.len() && (#[trigger] ns[i]).idled
}

/// What to wait for before the next sweep.
#[derive(Clone, Copy, Debug, PartialEq, Eq, Structural)]
pub enum Pause {
    /// until a notification is asked for
    Kick,
    /// until this time
    Until(u64),
}

impl IdleState {
    /// An idled notification is never overlooked.
    pub open spec fn wf(self) -> bool {
        some_idled(self.notifications@) ==> self.any_idled
    }

    pub fn new() -> (s: IdleState)
        ensures
            s.wf(),
            s.notifications@.len() == 0,
            s.inhibitors@.len() == 0,
            s.last_activity == 0,
            !s.any_idled,
    {
        IdleState { notifications: Vec::new(), inhibitors: Vec::new(), last_activity: 0, any_idled: false }
    }

    /// Forgets everything of a client.
    pub fn drop_client(&mut self, client: u32)
        requires
            old(self).wf(),
        ensures
            final(self).wf(),
            final(self).notifications@ == old(self).notifications@.filter(not_of(client)),
            final(self).inhibitors@ == old(self).inhibitors@.filter(inhibitor_not_of(client)),
            final(self).last_activity == old(self).last_activity,
            final(self).any_idled == old(self).any_idled,
    {
        let ghost before = self.notifications@;
        retain(
            &mut self.notifications,
            |n: &IdleNotification| -> (b: bool) ensures b == (n.client != client) { n.client != client },
            Ghost(not_of(client)),
        );
        retain(
            &mut self.inhibitors,
            |i: &IdleInhibitor| -> (b: bool) ensures b == (i.client != client) { i.client != client },
            Ghost(inhibitor_not_of(client)),
        );
        proof {
            still_covered(before, not_of(client));
        }
    }

    pub fn clear(&mut self)
        ensures
            final(self).wf(),
            final(self).notifications@.len() == 0,
            final(self).inhibitors@.len() == 0,
            final(self).last_activity == old(self).last_activity,
            final(self).any_idled == old(self).any_idled,
    {
        self.notifications.clear();
        self.inhibitors.clear();
    }

    /// Whether a mapped surface inhibits idling; `mapped` lists the mapped surfaces.
    pub fn inhibited(&self, mapped: &Vec<u64>) -> (r: bool)
        ensures
            r == inhibited_spec(self.inhibitors@, mapped@),
    {
        any(
            &self.inhibitors,
            |i: &IdleInhibitor| -> (b: bool) ensures b == mapped@.contains(i.surface) { has(mapped, i.surface) },
            Ghost(holds_awake(mapped@)),
        )
    }

    /// How long the deadline sweep waits: a second is fine enough for timeouts of
    /// minutes.
    pub fn pause(&self, now: u64) -> (r: Pause)
        requires
            now <= u64::MAX - 1_000_000_000,
        ensures
            r == (if self.notifications@.len() == 0 {
                Pause::Kick
            } else {
                Pause::Until((now + 1_000_000_000) as u64)
            }),
    {
        if self.notifications.len() == 0 {
            Pause::Kick
        } else {
            Pause::Until(now + 1_000_000_000)
        }
    }
}

fn has(v: &Vec<u64>, x: u64) -> (r: bool)
    ensures
        r == v@.contains(x),
{
    for i in 0..v.len()
        invariant
            forall|j: int| 0 <= j < i ==> v@[j] != x,
    {
        if v[i] == x {
            assert(v@[i as int] == x);
            return true;
        }
    }
    false
}

proof fn still_covered(ns: Seq<IdleNotification>, p: spec_fn(IdleNotification) -> bool)
    ensures
        some_idled(ns.filter(p)) ==> some_idled(ns),
{
    if some_idled(ns.filter(p)) {
        let f = ns.filter(p);
        let i = choose|i: int| 0 <= i < f.len() && (#[trigger] f[i]).idled;
        filter_members(ns, p, f[i]);
        assert(f.contains(f[i]));
        let j = choose|j: int| 0 <= j < ns.len() && ns[j] == f[i];
        assert(ns[j].idled);
    }
}

/// `b` is `a` after input at `now`.
pub open spec fn noted_activity(a: IdleState, b: IdleState, now: u64) -> bool {
    &&& b.last_activity == now
    &&& !b.any_idled
    &&& b.inhibitors@ == a.inhibitors@
    &&& b.notifications@ == (if a.any_idled { awake(a.notifications@) } else { a.notifications@ })
}

/// Who hears that the user is back: everyone who idled.
pub open spec fn resumptions(a: IdleState) -> Seq<Sent> {
    if a.any_idled { resumes(a.notifications@) } else { Seq::empty() }
}

/// Input happened: everyone who idled resumes. `true` when the outputs are off and
/// must be woken.
pub fn note_activity(idle: &mut IdleState, out: &mut Out, now: u64, dpms_off: bool) -> (r: bool)
    requires
        old(idle).wf(),
    ensures
        final(idle).wf(),
        r == dpms_off,
        noted_activity(*old(idle), *final(idle), now),
        final(out).sent@ == old(out).sent@ + resumptions(*old(idle)),
{
    assert(out.sent@ =~= out.sent@ + Seq::<Sent>::empty());
    idle.last_activity = now;
    if idle.any_idled {
        idle.any_idled = false;
        let ghost ns = idle.notifications@;
        let ghost had = out.sent@;
        let ghost rest = idle.inhibitors@;
        let n: usize = idle.notifications.len();
        assert(out.sent@ =~= had + resumes(ns.take(0)));
        for i in 0..n
            invariant
                n == ns.len(),
                idle.notifications@.len() == n,
                idle.last_activity == now,
                !idle.any_idled,
                idle.inhibitors@ == rest,
                out.sent@ == had + resumes(ns.take(i as int)),
                forall|j: int| 0 <= j < i ==> #[trigger] idle.notifications@[j] == (IdleNotification {
                    idled: false,
                    ..ns[j]
                }),
                forall|j: int| i <= j < n ==> #[trigger] idle.notifications@[j] == ns[j],
        {
            proof {
                assert(ns.take(i + 1).drop_last() =~= ns.take(i as int));
                assert(ns.take(i + 1).last() == ns[i as int]);
                assert(idle.notifications@[i as int] == ns[i as int]);
            }
            let m: IdleNotification = idle.notifications[i];
            if m.idled {
                idle.notifications.set(i, IdleNotification { idled: false, ..m });
                out.event(m.client, m.id, Event::Resumed);
            }
            assert(out.sent@ =~= had + resumes(ns.take(i + 1)));
        }
        assert(ns.take(n as int) =~= ns);
        assert(idle.notifications@ =~= awake(ns));
        assert(!some_idled(idle.notifications@));
    }
    dpms_off
}

/// Deadline sweep. A visible inhibitor counts as continuous activity.
pub fn tick(idle: &mut IdleState, out: &mut Out, now: u64, mapped: &Vec<u64>)
    requires
        old(idle).wf(),
    ensures
        final(idle).wf(),
        final(idle).inhibitors@ == old(idle).inhibitors@,
        inhibited_spec(old(idle).inhibitors@, mapped@) ==> {
            &&& final(idle).last_activity == now
            &&& final(idle).notifications@ == old(idle).notifications@
            &&& final(idle).any_idled == old(idle).any_idled
            &&& final(out).sent@ == old(out).sent@
        },
        !inhibited_spec(old(idle).inhibitors@, mapped@) ==> {
            let ms = idle_ms(now, old(idle).last_activity);
            &&& final(idle).last_activity == old(idle).last_activity
            &&& final(idle).notifications@ == fallen(old(idle).notifications@, ms)
            &&& final(out).sent@ == old(out).sent@ + idles(old(idle).notifications@, ms)
            &&& final(idle).any_idled == (old(idle).any_idled || idles(old(idle).notifications@, ms).len() > 0)
        },
{
    if idle.inhibited(mapped) {
        idle.last_activity = now;
        return;
    }
    let ms: u64 = now.saturating_sub(idle.last_activity) / 1_000_000;
    let ghost ns = idle.notifications@;
    let ghost had = out.sent@;
    let ghost before = *idle;
    let n: usize = idle.notifications.len();
    assert(out.sent@ =~= had + idles(ns.take(0), ms));
    for i in 0..n
        invariant
            n == ns.len(),
            idle.notifications@.len() == n,
            before.notifications@ == ns,
            before.wf(),
            idle.last_activity == before.last_activity,
            idle.inhibitors@ == before.inhibitors@,
            out.sent@ == had + idles(ns.take(i as int), ms),
            idle.any_idled == (before.any_idled || idles(ns.take(i as int), ms).len() > 0),
            forall|j: int| 0 <= j < i ==> #[trigger] idle.notifications@[j] == (IdleNotification {
                idled: ns[j].idled || falls(ns[j], ms),
                ..ns[j]
            }),
            forall|j: int| i <= j < n ==> #[trigger] idle.notifications@[j] == ns[j],
            forall|j: int| 0 <= j < i && (#[trigger] idle.notifications@[j]).idled ==> idle.any_idled,
    {
        proof {
            assert(ns.take(i + 1).drop_last() =~= ns.take(i as int));
            assert(ns.take(i + 1).last() == ns[i as int]);
            assert(idle.notifications@[i as int] == ns[i as int]);
            if ns[i as int].idled {
                assert(some_idled(before.notifications@));
            }
        }
        let m: IdleNotification = idle.notifications[i];
        if !m.idled && ms >= m.timeout_ms as u64 {
            idle.notifications.set(i, IdleNotification { idled: true, ..m });
            idle.any_idled = true;
            out.event(m.client, m.id, Event::Idled);
        }
        assert(out.sent@ =~= had + idles(ns.take(i + 1), ms));
    }
    assert(ns.take(n as int) =~= ns);
    assert(idle.notifications@ =~= fallen(ns, ms));
}

/// After any input nobody is idled, whatever happened before.
pub proof fn activity_resumes_everyone(idle: IdleState)
    requires
        idle.wf(),
    ensures
        !some_idled(if idle.any_idled { awake(idle.notifications@) } else { idle.notifications@ }),
{
    if idle.any_idled {
        let a = awake(idle.notifications@);
        assert forall|i: int| 0 <= i < a.len() implies !(#[trigger] a[i]).idled by {}
    }
}

/// Nobody is told twice: a second sweep without input in between only tells those
/// whose time came since.
pub proof fn nobody_idles_twice(ns: Seq<IdleNotification>, first: u64, second: u64, i: int)
    requires
        0 <= i < ns.len(),
        falls(ns[i], first),
    ensures
        !falls(fallen(ns, first)[i], second),
{
}

// -- the notifier --

pub struct IdleNotifierGlobal;

impl IdleNotifierGlobal {
    pub fn interface(&self) -> (r: Interface)
        ensures
            r is ExtIdleNotifierV1,
    {
        Interface::ExtIdleNotifierV1
    }

    pub fn version(&self) -> (r: u32)
        ensures
            r == 1,
    {
        1
    }

    pub fn bind(&self, client: u32, id: ObjectId, version: u32) -> (r: IdleNotifier)
        ensures
            r == (IdleNotifier { id, client, version }),
    {
        IdleNotifier { id, client, version }
    }
}

#[derive(Clone, Copy, Debug, PartialEq, Eq, Structural)]
pub struct IdleNotifier {
    pub id: ObjectId,
    pub client: u32,
    pub version: u32,
}

impl IdleNotifier {
    /// A notification after `timeout` milliseconds without input.
    pub fn get_idle_notification(&self, idle: &mut IdleState, id: ObjectId, timeout: u32)
        requires
            old(idle).wf(),
        ensures
            final(idle).wf(),
            final(idle).notifications@ == old(idle).notifications@.push(
                IdleNotification { id, client: self.client, timeout_ms: timeout, idled: false },
            ),
            *final(idle) == (IdleState { notifications: final(idle).notifications, ..*old(idle) }),
    {
        let ghost ns = idle.notifications@;
        idle.notifications.push(IdleNotification { id, client: self.client, timeout_ms: timeout, idled: false });
        proof {
            if some_idled(idle.notifications@) {
                let i = choose|i: int| 0 <= i < idle.notifications@.len() && (#[trigger] idle.notifications@[i]).idled;
                assert(ns[i].idled);
            }
        }
    }
}

pub open spec fn other_notification(client: u32, id: ObjectId) -> spec_fn(IdleNotification) -> bool {
    |n: IdleNotification| !(n.id == id && n.client == client)
}

impl IdleNotification {
    /// The client no longer wants to know.
    pub fn destroy(&self, idle: &mut IdleState)
        requires
            old(idle).wf(),
        ensures
            final(idle).wf(),
            final(idle).notifications@ == old(idle).notifications@.filter(other_notification(self.client, self.id)),
            *final(idle) == (IdleState { notifications: final(idle).notifications, ..*old(idle) }),
    {
        let ghost before = idle.notifications@;
        let (client, id): (u32, ObjectId) = (self.client, self.id);
        retain(
            &mut idle.notifications,
            |n: &IdleNotification| -> (b: bool) ensures b == !(n.id == id && n.client == client) { !(n.id == id && n.client == client) },
            Ghost(other_notification(client, id)),
        );
        proof {
            still_covered(before, other_notification(client, id));
        }
    }
}

// -- inhibitors --

pub struct IdleInhibitGlobal;

impl IdleInhibitGlobal {
    pub fn interface(&self) -> (r: Interface)
        ensures
            r is ZwpIdleInhibitManagerV1,
    {
        Interface::ZwpIdleInhibitManagerV1
    }

    pub fn version(&self) -> (r: u32)
        ensures
            r == 1,
    {
        1
    }

    pub fn bind(&self, client: u32, id: ObjectId, version: u32) -> (r: IdleInhibitManager)
        ensures
            r == (IdleInhibitManager { id, client, version }),
    {
        IdleInhibitManager { id, client, version }
    }
}

#[derive(Clone, Copy, Debug, PartialEq, Eq, Structural)]
pub struct IdleInhibitManager {
    pub id: ObjectId,
    pub client: u32,
    pub version: u32,
}

impl IdleInhibitManager {
    /// An inhibitor on a surface; `found` is the surface the id names, if any.
    pub fn create_inhibitor(
        &self,
        idle: &mut IdleState,
        out: &mut Out,
        id: ObjectId,
        surface: ObjectId,
        found: Option<u64>,
    )
        ensures
            match found {
                None => told_invalid(*old(out), *final(out), self.client, surface) && *final(idle) == *old(idle),
                Some(uid) => {
                    &&& final(out).sent@ == old(out).sent@
                    &&& final(idle).inhibitors@ == old(idle).inhibitors@.push(
                        IdleInhibitor { id, client: self.client, surface: uid },
                    )
                    &&& *final(idle) == (IdleState { inhibitors: final(idle).inhibitors, ..*old(idle) })
                },
            },
    {
        match found {
            None => {
                out.invalid_object(self.client, surface);
            },
            Some(uid) => {
                idle.inhibitors.push(IdleInhibitor { id, client: self.client, surface: uid });
            },
        }
    }
}

pub open spec fn other_inhibitor(client: u32, id: ObjectId) -> spec_fn(IdleInhibitor) -> bool {
    |n: IdleInhibitor| !(n.id == id && n.client == client)
}

impl IdleInhibitor {
    pub fn destroy(&self, idle: &mut IdleState)
        ensures
            final(idle).inhibitors@ == old(idle).inhibitors@.filter(other_inhibitor(self.client, self.id)),
            *final(idle) == (IdleState { inhibitors: final(idle).inhibitors, ..*old(idle) }),
    {
        let (client, id): (u32, ObjectId) = (self.client, self.id);
        retain(
            &mut idle.inhibitors,
            |n: &IdleInhibitor| -> (b: bool) ensures b == !(n.id == id && n.client == client) { !(n.id == id && n.client == client) },
            Ghost(other_inhibitor(client, id)),
        );
    }
}

} // verus!
