//! Pointer constraints: one per surface, active while that surface holds pointer
//! focus. Locking freezes the cursor, confining clamps it into a region. Oneshot
//! constraints die when deactivated, persistent ones come back with the focus.
use crate::list::{filter_members, find, retain};
use crate::output::{first_slot, first_slot_absent, first_slot_is_lowest};
use crate::protocol::events::{refused, sent, told_invalid, Event, Out};
use crate::protocol::interfaces::Interface;
use crate::protocol::{Fixed, ObjectId};
use crate::text::{decimal_text, digits};
use vstd::prelude::*;

verus! {

pub const ERR_ALREADY_CONSTRAINED: u32 = 1;

pub const LIFETIME_ONESHOT: u32 = 1;

pub const LIFETIME_PERSISTENT: u32 = 2;

#[derive(Copy, Clone, Debug, PartialEq, Eq, Structural)]
pub enum Kind {
    Lock,
    Confine,
}

#[derive(Copy, Clone, Debug, PartialEq, Eq)]
pub struct Constraint {
    pub kind: Kind,
    pub oneshot: bool,
    /// identity of the surface, never reused
    pub surface: u64,
    /// the object events go to
    pub obj: ObjectId,
    pub client: u32,
    pub active: bool,
    /// a deactivated oneshot never comes back
    pub dead: bool,
    /// where the client would like the cursor after unlocking
    pub hint: Option<(Fixed, Fixed)>,
    /// a snapshot of the region, when one was given
    pub region: Option<u64>,
}

pub open spec fn activity(kind: Kind, active: bool) -> Event {
    match (kind, active) {
        (Kind::Lock, true) => Event::PointerLocked,
        (Kind::Lock, false) => Event::PointerUnlocked,
        (Kind::Confine, true) => Event::PointerConfined,
        (Kind::Confine, false) => Event::PointerUnconfined,
    }
}

/// The constraint turned on or off; a oneshot that is turned off is dead.
pub open spec fn switched(c: Constraint, active: bool) -> Constraint {
    Constraint { active, dead: c.dead || (c.active && !active && c.oneshot), ..c }
}

impl Constraint {
    /// Turns the constraint on or off and tells its client; nothing happens when it
    /// is so already.
    pub fn send_active(&mut self, out: &mut Out, active: bool)
        ensures
            *final(self) == switched(*old(self), active),
            final(out).sent@ == (if old(self).active == active {
                old(out).sent@
            } else {
                old(out).sent@.push(sent(old(self).client, old(self).obj, activity(old(self).kind, active)))
            }),
    {
        if self.active == active {
            return;
        }
        self.active = active;
        let event: Event = match self.kind {
            Kind::Lock => if active { Event::PointerLocked } else { Event::PointerUnlocked },
            Kind::Confine => if active { Event::PointerConfined } else { Event::PointerUnconfined },
        };
        out.event(self.client, self.obj, event);
        if !active && self.oneshot {
            self.dead = true;
        }
    }

    /// Where the client would like the cursor.
    pub fn set_cursor_position_hint(&mut self, x: Fixed, y: Fixed)
        ensures
            *final(self) == (Constraint { hint: Some((x, y)), ..*old(self) }),
    {
        self.hint = Some((x, y));
    }

    /// Changes the region; `found` is the region the id names, if any.
    pub fn set_region(&mut self, out: &mut Out, region: ObjectId, found: Option<u64>)
        ensures
            region.0 == 0 ==> *final(self) == (Constraint { region: None, ..*old(self) }) && final(out).sent@ == old(out).sent@,
            region.0 != 0 && found is Some ==> *final(self) == (Constraint { region: found, ..*old(self) }) && final(out).sent@ == old(out).sent@,
            region.0 != 0 && found is None ==> *final(self) == *old(self) && told_invalid(
                *old(out),
                *final(out),
                old(self).client,
                region,
            ),
    {
        if region.0 == 0 {
            self.region = None;
            return;
        }
        match found {
            Some(_) => {
                self.region = found;
            },
            None => {
                out.invalid_object(self.client, region);
            },
        }
    }
}

pub struct PointerConstraintsGlobal;

impl PointerConstraintsGlobal {
    pub fn interface(&self) -> (r: Interface)
        ensures
            r is ZwpPointerConstraintsV1,
    {
        Interface::ZwpPointerConstraintsV1
    }

    pub fn version(&self) -> (r: u32)
        ensures
            r == 1,
    {
        1
    }

    pub fn bind(&self, client: u32, id: ObjectId, version: u32) -> (r: ConstraintsManager)
        ensures
            r == (ConstraintsManager { id, client, version }),
    {
        ConstraintsManager { id, client, version }
    }
}

#[derive(Copy, Clone, Debug, PartialEq, Eq, Structural)]
pub struct ConstraintsManager {
    pub id: ObjectId,
    pub client: u32,
    pub version: u32,
}

/// A locked pointer object.
#[derive(Copy, Clone, Debug, PartialEq, Eq, Structural)]
pub struct LockedPointer {
    pub id: ObjectId,
    pub client: u32,
}

/// A confined pointer object.
#[derive(Copy, Clone, Debug, PartialEq, Eq, Structural)]
pub struct ConfinedPointer {
    pub id: ObjectId,
    pub client: u32,
}

pub open spec fn of_object(client: u32, id: ObjectId) -> spec_fn(Constraint) -> bool {
    |c: Constraint| c.client == client && c.obj == id
}

fn slot_of(cs: &Vec<Constraint>, client: u32, id: ObjectId) -> (r: Option<usize>)
    ensures
        match r {
            Some(k) => first_slot(cs@, of_object(client, id)) == Some(k as int) && k < cs@.len(),
            None => first_slot(cs@, of_object(client, id)) is None,
        },
{
    find(
        cs,
        |c: &Constraint| -> (b: bool) ensures b == (c.client == client && c.obj == id) { c.client == client && c.obj.0 == id.0 },
        Ghost(of_object(client, id)),
    )
}

/// Constraint `k` of a list with another region.
pub open spec fn region_set(cs: Seq<Constraint>, k: int, region: Option<u64>) -> Seq<Constraint> {
    cs.update(k, Constraint { region, ..cs[k] })
}

impl LockedPointer {
    /// The object goes, and its constraint with it: the surface may be constrained again.
    pub fn destroy(&self, cs: &mut Vec<Constraint>)
        requires
            one_per_surface(old(cs)@),
        ensures
            one_per_surface(final(cs)@),
            final(cs)@ == old(cs)@.filter(not_object(self.client, self.id)),
    {
        drop_constraint(cs, self.client, self.id);
    }

    /// The client is gone, and with it the constraint.
    pub fn break_loops(&self, cs: &mut Vec<Constraint>)
        requires
            one_per_surface(old(cs)@),
        ensures
            one_per_surface(final(cs)@),
            final(cs)@ == old(cs)@.filter(not_object(self.client, self.id)),
    {
        drop_constraint(cs, self.client, self.id);
    }

    /// Where the client would like the cursor after unlocking.
    pub fn set_cursor_position_hint(&self, cs: &mut Vec<Constraint>, x: Fixed, y: Fixed)
        ensures
            final(cs)@ == match first_slot(old(cs)@, of_object(self.client, self.id)) {
                Some(k) => old(cs)@.update(k, Constraint { hint: Some((x, y)), ..old(cs)@[k] }),
                None => old(cs)@,
            },
    {
        match slot_of(cs, self.client, self.id) {
            Some(k) => {
                cs[k].set_cursor_position_hint(x, y);
            },
            None => {},
        }
    }

    /// Changes the region; `found` is the region the id names, if any.
    pub fn set_region(&self, cs: &mut Vec<Constraint>, out: &mut Out, region: ObjectId, found: Option<u64>)
        ensures
            match first_slot(old(cs)@, of_object(self.client, self.id)) {
                Some(k) => if region.0 != 0 && found is None {
                    final(cs)@ == old(cs)@ && told_invalid(*old(out), *final(out), self.client, region)
                } else {
                    final(cs)@ == region_set(old(cs)@, k, if region.0 == 0 { None } else { found }) && final(out).sent@
                        == old(out).sent@
                },
                None => final(cs)@ == old(cs)@ && final(out).sent@ == old(out).sent@,
            },
    {
        change_region(cs, self.client, self.id, out, region, found);
    }
}

impl ConfinedPointer {
    /// The object goes, and its constraint with it: the surface may be constrained again.
    pub fn destroy(&self, cs: &mut Vec<Constraint>)
        requires
            one_per_surface(old(cs)@),
        ensures
            one_per_surface(final(cs)@),
            final(cs)@ == old(cs)@.filter(not_object(self.client, self.id)),
    {
        drop_constraint(cs, self.client, self.id);
    }

    /// The client is gone, and with it the constraint.
    pub fn break_loops(&self, cs: &mut Vec<Constraint>)
        requires
            one_per_surface(old(cs)@),
        ensures
            one_per_surface(final(cs)@),
            final(cs)@ == old(cs)@.filter(not_object(self.client, self.id)),
    {
        drop_constraint(cs, self.client, self.id);
    }

    /// Changes the region; `found` is the region the id names, if any.
    pub fn set_region(&self, cs: &mut Vec<Constraint>, out: &mut Out, region: ObjectId, found: Option<u64>)
        ensures
            match first_slot(old(cs)@, of_object(self.client, self.id)) {
                Some(k) => if region.0 != 0 && found is None {
                    final(cs)@ == old(cs)@ && told_invalid(*old(out), *final(out), self.client, region)
                } else {
                    final(cs)@ == region_set(old(cs)@, k, if region.0 == 0 { None } else { found }) && final(out).sent@
                        == old(out).sent@
                },
                None => final(cs)@ == old(cs)@ && final(out).sent@ == old(out).sent@,
            },
    {
        change_region(cs, self.client, self.id, out, region, found);
    }
}

/// A constraint of another object.
pub open spec fn not_object(client: u32, id: ObjectId) -> spec_fn(Constraint) -> bool {
    |c: Constraint| !(c.client == client && c.obj == id)
}

fn drop_constraint(cs: &mut Vec<Constraint>, client: u32, id: ObjectId)
    requires
        one_per_surface(old(cs)@),
    ensures
        one_per_surface(final(cs)@),
        final(cs)@ == old(cs)@.filter(not_object(client, id)),
{
    retain(
        cs,
        |c: &Constraint| -> (b: bool) ensures b == !(c.client == client && c.obj == id) { !(c.client == client && c.obj.0 == id.0) },
        Ghost(not_object(client, id)),
    );
    proof {
        thinning_keeps_one_per_surface(old(cs)@, not_object(client, id));
    }
}

proof fn thinning_keeps_one_per_surface(cs: Seq<Constraint>, p: spec_fn(Constraint) -> bool)
    requires
        one_per_surface(cs),
    ensures
        one_per_surface(cs.filter(p)),
    decreases cs.len(),
{
    reveal(Seq::filter);
    if cs.len() > 0 {
        let rest = cs.drop_last();
        assert(one_per_surface(rest)) by {
            assert forall|i: int, j: int| 0 <= i < j < rest.len() implies (#[trigger] rest[i]).surface != (
            #[trigger] rest[j]).surface by {
                assert(cs[i].surface != cs[j].surface);
            }
        }
        thinning_keeps_one_per_surface(rest, p);
        let kept = rest.filter(p);
        assert forall|i: int| 0 <= i < kept.len() implies (#[trigger] kept[i]).surface != cs.last().surface by {
            filter_members(rest, p, kept[i]);
            assert(kept.contains(kept[i]));
            let k = choose|k: int| 0 <= k < rest.len() && rest[k] == kept[i];
            assert(cs[k].surface != cs[cs.len() - 1].surface);
        }
    }
}

fn change_region(
    cs: &mut Vec<Constraint>,
    client: u32,
    id: ObjectId,
    out: &mut Out,
    region: ObjectId,
    found: Option<u64>,
)
    ensures
        match first_slot(old(cs)@, of_object(client, id)) {
            Some(k) => if region.0 != 0 && found is None {
                final(cs)@ == old(cs)@ && told_invalid(*old(out), *final(out), client, region)
            } else {
                final(cs)@ == region_set(old(cs)@, k, if region.0 == 0 { None } else { found }) && final(out).sent@
                    == old(out).sent@
            },
            None => final(cs)@ == old(cs)@ && final(out).sent@ == old(out).sent@,
        },
{
    match slot_of(cs, client, id) {
        Some(k) => {
            proof {
                first_slot_is_lowest(cs@, of_object(client, id));
            }
            cs[k].set_region(out, region, found);
            assert(region.0 != 0 && found is None ==> cs@ =~= old(cs)@);
        },
        None => {},
    }
}

pub open spec fn on_surface(surface: u64) -> spec_fn(Constraint) -> bool {
    |c: Constraint| c.surface == surface
}

/// At most one constraint per surface.
pub open spec fn one_per_surface(cs: Seq<Constraint>) -> bool {
    forall|i: int, j: int| 0 <= i < j < cs.len() ==> (#[trigger] cs[i]).surface != (#[trigger] cs[j]).surface
}

/// What a request for a constraint names.
#[derive(Copy, Clone, Debug)]
pub struct Ask {
    pub kind: Kind,
    pub id: ObjectId,
    pub surface: ObjectId,
    /// the surface that id names
    pub surface_found: Option<u64>,
    pub region: ObjectId,
    /// the region that id names
    pub region_found: Option<u64>,
    pub lifetime: u32,
}

pub open spec fn made(a: Ask, client: u32, surface: u64) -> Constraint {
    Constraint {
        kind: a.kind,
        oneshot: a.lifetime == LIFETIME_ONESHOT,
        surface,
        obj: a.id,
        client,
        active: false,
        dead: false,
        hint: None,
        region: if a.region.0 == 0 { None } else { a.region_found },
    }
}

impl ConstraintsManager {
    /// Adds a constraint to the seat. `seat` says whether there is one.
    pub fn create(&self, out: &mut Out, cs: &mut Vec<Constraint>, seat: bool, a: Ask)
        requires
            one_per_surface(old(cs)@),
        ensures
            one_per_surface(final(cs)@),
            match a.surface_found {
                None => told_invalid(*old(out), *final(out), self.client, a.surface) && final(cs)@ == old(cs)@,
                Some(s) => if a.lifetime != LIFETIME_ONESHOT && a.lifetime != LIFETIME_PERSISTENT {
                    &&& refused(
                        *old(out),
                        *final(out),
                        self.client,
                        self.id,
                        0,
                        digits(a.lifetime as nat) + " is not a lifetime"@,
                    )
                    &&& final(cs)@ == old(cs)@
                } else if !seat {
                    final(out).sent@ == old(out).sent@ && final(cs)@ == old(cs)@
                } else if first_slot(old(cs)@, on_surface(s)) is Some {
                    &&& refused(
                        *old(out),
                        *final(out),
                        self.client,
                        self.id,
                        ERR_ALREADY_CONSTRAINED,
                        "the surface already has a pointer constraint"@,
                    )
                    &&& final(cs)@ == old(cs)@
                } else if a.region.0 != 0 && a.region_found is None {
                    told_invalid(*old(out), *final(out), self.client, a.region) && final(cs)@ == old(cs)@
                } else {
                    &&& final(out).sent@ == old(out).sent@
                    &&& final(cs)@ == old(cs)@.push(made(a, self.client, s))
                },
            },
    {
        let s: u64 = match a.surface_found {
            None => {
                out.invalid_object(self.client, a.surface);
                return;
            },
            Some(s) => s,
        };
        if a.lifetime != LIFETIME_ONESHOT && a.lifetime != LIFETIME_PERSISTENT {
            let text: String = decimal_text(a.lifetime as u64).concat(" is not a lifetime");
            out.protocol_error(self.client, self.id, 0, text.as_str());
            return;
        }
        if !seat {
            return;
        }
        match find(
            cs,
            |c: &Constraint| -> (b: bool) ensures b == (c.surface == s) { c.surface == s },
            Ghost(on_surface(s)),
        ) {
            Some(_) => {
                out.protocol_error(
                    self.client,
                    self.id,
                    ERR_ALREADY_CONSTRAINED,
                    "the surface already has a pointer constraint",
                );
                return;
            },
            None => {},
        }
        let region: Option<u64> = if a.region.0 == 0 {
            None
        } else {
            match a.region_found {
                Some(r) => Some(r),
                None => {
                    out.invalid_object(self.client, a.region);
                    return;
                },
            }
        };
        proof {
            assert forall|i: int| 0 <= i < cs@.len() implies (#[trigger] cs@[i]).surface != s by {
                assert(!on_surface(s)(cs@[i]));
            }
        }
        cs.push(
            Constraint {
                kind: a.kind,
                oneshot: a.lifetime == LIFETIME_ONESHOT,
                surface: s,
                obj: a.id,
                client: self.client,
                active: false,
                dead: false,
                hint: None,
                region,
            },
        );
    }
}

/// Destroying a constraint's object frees its surface: no constraint is left on it, so that
/// the next request for one is no longer refused. Those of other objects stay.
pub proof fn destroyed_constraints_free_their_surface(cs: Seq<Constraint>, client: u32, id: ObjectId, k: int)
    requires
        one_per_surface(cs),
        0 <= k < cs.len(),
        of_object(client, id)(cs[k]),
    ensures
        first_slot(cs.filter(not_object(client, id)), on_surface(cs[k].surface)) is None,
        forall|c: Constraint| #[trigger]
            cs.filter(not_object(client, id)).contains(c) <==> cs.contains(c) && !of_object(client, id)(c),
{
    let kept = cs.filter(not_object(client, id));
    assert forall|c: Constraint| #[trigger] kept.contains(c) <==> cs.contains(c) && !of_object(client, id)(c) by {
        filter_members(cs, not_object(client, id), c);
    }
    assert forall|j: int| 0 <= j < kept.len() implies !on_surface(cs[k].surface)(#[trigger] kept[j]) by {
        assert(kept.contains(kept[j]));
        let i = choose|i: int| 0 <= i < cs.len() && cs[i] == kept[j];
        assert(i != k);
        if i < k {
            assert(cs[i].surface != cs[k].surface);
        } else {
            assert(cs[k].surface != cs[i].surface);
        }
    }
    first_slot_absent(kept, on_surface(cs[k].surface));
}

/// A oneshot is dead once it was turned off.
pub proof fn spent_oneshots_are_dead(c: Constraint)
    requires
        c.oneshot,
        c.active,
    ensures
        switched(c, false).dead,
{
}

/// What is dead stays dead, whatever comes.
pub proof fn dead_oneshots_stay_dead(c: Constraint, active: bool)
    requires
        c.dead,
    ensures
        switched(c, active).dead,
{
}

/// A persistent constraint comes back: losing the focus leaves it alive, and gaining it
/// turns it on again.
pub proof fn persistent_constraints_come_back(c: Constraint)
    requires
        !c.oneshot,
        !c.dead,
    ensures
        !switched(c, false).dead,
        switched(switched(c, false), true) == (Constraint { active: true, ..c }),
{
}

} // verus!
