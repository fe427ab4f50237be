//! What a session lock asks of its surfaces, and what it says when.
use crate::list::filter_members;
use crate::output::{first_slot_found, first_slot_is_lowest};
use crate::protocol::events::{Event, Sent};
use crate::protocol::session_lock::{
    commit_fault, configures_on, excused, off_output, on_output, presented, presented_news, reconfigured, removed, removed_news,
    shown_on, shows, surface_fault, unlike, BufferChange, Given, LockSlot, LockSurface, Progress, SessionLock,
    ALREADY_CONSTRUCTED, COMMIT_BEFORE_FIRST_ACK, DIMENSIONS_MISMATCH, DUPLICATE_OUTPUT, NULL_BUFFER, ROLE,
};
use crate::protocol::SurfaceFacts;
use vstd::prelude::*;

verus! {

/// A commit of a lock surface is in order exactly when a configure was acked and it shows a
/// buffer, a new one of just the size that was acked. What it breaks first is what it is
/// refused for.
pub proof fn lock_commits_show_the_acked_size(l: LockSurface, change: BufferChange, has_buffer: bool)
    requires
        change matches BufferChange::Attached { w, h } ==> w >= 0 && h >= 0,
    ensures
        commit_fault(l, change, has_buffer) is None <==> l.acked != 0 && match change {
            BufferChange::Kept => has_buffer,
            BufferChange::Detached => false,
            BufferChange::Attached { w, h } => w == l.acked_size.0 && h == l.acked_size.1,
        },
        commit_fault(l, change, has_buffer) matches Some(f) ==> {
            &&& f.0 == COMMIT_BEFORE_FIRST_ACK <==> l.acked == 0
            &&& l.acked != 0 && change is Attached ==> f.0 == DIMENSIONS_MISMATCH
            &&& l.acked != 0 && !(change is Attached) ==> f.0 == NULL_BUFFER
        },
{
}

/// A lock surface is made exactly when its surface has no role and no buffer, and the lock
/// has none on that output yet. A surface that had a role gets none; one that is refused for
/// anything else has the role already.
pub proof fn lock_surfaces_are_one_per_output(l: SessionLock, s: SurfaceFacts, name: Seq<char>)
    ensures
        surface_fault(l, s, name) is None <==> {
            &&& !s.live_role && s.other_role is None && !s.has_buffer
            &&& forall|i: int| 0 <= i < l.surfaces@.len() ==> (#[trigger] l.surfaces@[i]).output_name@ != name
        },
        surface_fault(l, s, name) matches Some(f) ==> {
            &&& f.0 == ROLE <==> s.live_role || s.other_role is Some
            &&& f.2 is Refused <==> s.live_role || s.other_role is Some
            &&& f.2 is Refused || f.2 is RoleOnly
            &&& !s.live_role && s.other_role is None ==> f.0 == (if s.has_buffer {
                ALREADY_CONSTRUCTED
            } else {
                DUPLICATE_OUTPUT
            })
        },
{
    first_slot_is_lowest(l.surfaces@, on_output(name));
    assert forall|i: int| 0 <= i < l.surfaces@.len() implies on_output(name)(#[trigger] l.surfaces@[i]) == (
    l.surfaces@[i].output_name@ == name) by {}
}

/// What an output shows while locked is the first mapped surface that the lock has on it.
pub proof fn locked_outputs_show_their_surface(l: SessionLock, name: Seq<char>, k: int)
    ensures
        0 <= k < l.surfaces@.len() && l.surfaces@[k].output_name@ == name && l.surfaces@[k].mapped && (forall|j: int|
            0 <= j < k ==> !((#[trigger] l.surfaces@[j]).output_name@ == name && l.surfaces@[j].mapped)) ==> shown_on(l, name)
            == Some(l.surfaces@[k].surface),
        (forall|j: int| 0 <= j < l.surfaces@.len() ==> !((#[trigger] l.surfaces@[j]).output_name@ == name && l.surfaces@[j].mapped))
            ==> shown_on(l, name) is None,
{
    first_slot_is_lowest(l.surfaces@, shows(name));
    if 0 <= k < l.surfaces@.len() && l.surfaces@[k].output_name@ == name && l.surfaces@[k].mapped && (forall|j: int|
        0 <= j < k ==> !((#[trigger] l.surfaces@[j]).output_name@ == name && l.surfaces@[j].mapped)) {
        assert forall|j: int| 0 <= j < k implies !shows(name)(#[trigger] l.surfaces@[j]) by {}
        first_slot_found(l.surfaces@, shows(name), k);
    }
}

/// The size that a surface is asked for, with its own next serial.
pub open spec fn asked_for(l: LockSurface, w: u32, h: u32) -> Sent {
    Sent { client: l.client, object: l.id, event: Event::LockConfigure { serial: l.next_serial, width: w, height: h } }
}

/// When an output changes size, each lock surface on it, and no other, is asked for that
/// size, once, and expects the ack of that configure.
pub proof fn resized_outputs_reconfigure_their_surfaces(a: Seq<LockSurface>, b: Seq<LockSurface>, name: Seq<char>, w: u32, h: u32, i: int)
    requires
        reconfigured(a, b, name, w, h),
        0 <= i < a.len(),
    ensures
        configures_on(a, name, w, h) == a.filter(on_output(name)).map_values(|l: LockSurface| asked_for(l, w, h)),
        a[i].output_name@ == name ==> {
            &&& configures_on(a, name, w, h).contains(asked_for(a[i], w, h))
            &&& b[i].last_sent == a[i].next_serial
            &&& b[i].sent@.len() == a[i].sent@.len() + 1
            &&& b[i].sent@.last().serial == a[i].next_serial && b[i].sent@.last().w == w && b[i].sent@.last().h == h
            &&& b[i].acked == a[i].acked && b[i].acked_size == a[i].acked_size && b[i].mapped == a[i].mapped && b[i].surface
                == a[i].surface
        },
        a[i].output_name@ != name ==> b[i] == a[i],
{
    configures_are_asked(a, name, w, h);
    if a[i].output_name@ == name {
        filter_members(a, on_output(name), a[i]);
        assert(a.contains(a[i]));
        let kept = a.filter(on_output(name));
        let j = choose|j: int| 0 <= j < kept.len() && kept[j] == a[i];
        assert(configures_on(a, name, w, h)[j] == asked_for(a[i], w, h));
    }
}

proof fn configures_are_asked(a: Seq<LockSurface>, name: Seq<char>, w: u32, h: u32)
    ensures
        configures_on(a, name, w, h) == a.filter(on_output(name)).map_values(|l: LockSurface| asked_for(l, w, h)),
    decreases a.len(),
{
    reveal(Seq::filter);
    let f = |l: LockSurface| asked_for(l, w, h);
    if a.len() > 0 {
        let rest = a.drop_last();
        configures_are_asked(rest, name, w, h);
        if on_output(name)(a.last()) {
            assert(a.filter(on_output(name)) =~= rest.filter(on_output(name)).push(a.last()));
            assert(a.filter(on_output(name)).map_values(f) =~= rest.filter(on_output(name)).map_values(f).push(
                asked_for(a.last(), w, h),
            ));
        }
    } else {
        assert(a.filter(on_output(name)).map_values(f) =~= Seq::empty());
    }
}

/// An output that goes away takes its lock surfaces along and leaves the others.
pub proof fn removed_outputs_take_their_surfaces(a: LockSlot, b: LockSlot, name: Seq<char>, s: LockSurface)
    requires
        removed(a, b, name),
        a.lock is Some,
    ensures
        b.lock is Some,
        b.lock->0.surfaces@.contains(s) <==> a.lock->0.surfaces@.contains(s) && s.output_name@ != name,
        b.lock->0.client == a.lock->0.client && b.lock->0.id == a.lock->0.id && b.lock->0.holder_dead == a.lock->0.holder_dead,
{
    filter_members(a.lock->0.surfaces@, off_output(name), s);
}

/// The lock's client hears that it is locked when the last output that owed a locked frame
/// presents one or goes away, and then only; a presented frame counts only where it was
/// composed locked.
pub proof fn locked_comes_with_the_last_output(a: LockSlot, name: Seq<char>, l: SessionLock)
    requires
        a.lock == Some(l),
    ensures
        ({
            let last = forall|i: int| 0 <= i < l.pending_outputs@.len() ==> (#[trigger] l.pending_outputs@[i])@ == name;
            let told = seq![Sent { client: l.client, object: l.id, event: Event::LockLocked }];
            let open = !l.locked_sent && !l.holder_dead;
            let staged = exists|i: int| 0 <= i < l.staged_outputs@.len() && (#[trigger] l.staged_outputs@[i])@ == name;
            &&& presented_news(a, name) == (if open && staged && last { told } else { Seq::empty() })
            &&& removed_news(a, name) == (if open && last { told } else { Seq::empty() })
        }),
{
    nothing_left(l.progress(), name);
    let pend = l.pending_outputs@;
    if forall|i: int| 0 <= i < pend.len() ==> (#[trigger] pend[i])@ == name {
        assert forall|i: int| 0 <= i < l.progress().pending.len() implies #[trigger] l.progress().pending[i] == name by {
            assert(pend[i]@ == name);
        }
    } else {
        let i = choose|i: int| 0 <= i < pend.len() && (#[trigger] pend[i])@ != name;
        assert(l.progress().pending[i] != name);
    }
    let st = l.staged_outputs@;
    if exists|i: int| 0 <= i < st.len() && (#[trigger] st[i])@ == name {
        let i = choose|i: int| 0 <= i < st.len() && (#[trigger] st[i])@ == name;
        assert(l.progress().staged[i] == name);
    } else if l.progress().staged.contains(name) {
        let i = choose|i: int| 0 <= i < l.progress().staged.len() && l.progress().staged[i] == name;
        assert(st[i]@ == name);
    }
}

proof fn nothing_left(p: Progress, name: Seq<char>)
    ensures
        excused(p, name).told <==> forall|i: int| 0 <= i < p.pending.len() ==> #[trigger] p.pending[i] == name,
{
    let left = p.pending.filter(unlike(name));
    if left.len() > 0 {
        filter_members(p.pending, unlike(name), left[0]);
        assert(left.contains(left[0]));
        let i = choose|i: int| 0 <= i < p.pending.len() && p.pending[i] == left[0];
        assert(p.pending[i] != name);
    } else {
        assert forall|i: int| 0 <= i < p.pending.len() implies #[trigger] p.pending[i] == name by {
            filter_members(p.pending, unlike(name), p.pending[i]);
            assert(p.pending.contains(p.pending[i]));
            if p.pending[i] != name {
                assert(left.contains(p.pending[i]));
            }
        }
    }
}

} // verus!
