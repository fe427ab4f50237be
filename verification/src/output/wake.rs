//! What lights dark outputs again: input, and a lock, for which a dark output would never
//! show a locked frame.
use crate::output::bringup::{dpms, dpms_head};
use crate::output::cursor::each;
use crate::output::topology::head_set;
use crate::output::{Display, Output};
use crate::protocol::events::{sent, Event, Out};
use crate::protocol::idle::{noted_activity, note_activity, resumptions, IdleState};
use crate::protocol::session_lock::{held_alive, starts, LockOutcome, LockSlot, Progress, SessionLockManager};
use crate::protocol::ObjectId;
use crate::text::texts;
use vstd::prelude::*;

verus! {

/// `b` is `a` with its outputs lit, and `set` the head set to commit for that, if any.
pub open spec fn lit(a: Display, b: Display, set: Option<Vec<(u32, u32)>>) -> bool {
    if a.dpms_off {
        &&& b.outputs@ == each(a.outputs@, dpms_head(true))
        &&& b == (Display { dpms_off: false, outputs: b.outputs, ..a })
        &&& set is Some
        &&& (set->0)@ == head_set(a.outputs@)
    } else {
        b == a && set is None
    }
}

fn light(d: &mut Display) -> (r: Option<Vec<(u32, u32)>>)
    ensures
        lit(*old(d), *final(d), r),
{
    if d.dpms_off {
        dpms(d, true)
    } else {
        None
    }
}

/// Input arrived: idle notifications end, and dark outputs light up. Returns the head set to
/// commit for that.
pub fn activity(idle: &mut IdleState, d: &mut Display, out: &mut Out, now: u64) -> (r: Option<Vec<(u32, u32)>>)
    requires
        old(idle).wf(),
    ensures
        final(idle).wf(),
        noted_activity(*old(idle), *final(idle), now),
        final(out).sent@ == old(out).sent@ + resumptions(*old(idle)),
        lit(*old(d), *final(d), r),
{
    note_activity(idle, out, now, d.dpms_off);
    light(d)
}

/// The names of the outputs, in order.
pub open spec fn names(outs: Seq<Output>) -> Seq<Seq<char>> {
    Seq::new(outs.len(), |i: int| outs[i].name@)
}

fn names_of(outs: &Vec<Output>) -> (r: Vec<String>)
    ensures
        texts(r@) == names(outs@),
{
    let mut v: Vec<String> = Vec::new();
    for i in 0..outs.len()
        invariant
            v@.len() == i,
            forall|j: int| 0 <= j < i ==> (#[trigger] v@[j])@ == outs@[j].name@,
    {
        v.push(outs[i].name.as_str().to_owned());
    }
    assert(texts(v@) =~= names(outs@));
    v
}

/// A client locks the session. Unless a live holder keeps the lock, dark outputs light up
/// first, and then every output owes a locked frame; without any the client is locked at
/// once. Returns the head set to commit for the lighting, too.
pub fn lock_session(
    m: &SessionLockManager,
    slot: &mut LockSlot,
    d: &mut Display,
    out: &mut Out,
    id: ObjectId,
) -> (r: (LockOutcome, Option<Vec<(u32, u32)>>))
    ensures
        held_alive(*old(slot)) ==> {
            &&& r.0 matches LockOutcome::Finished(l) && starts(l, id, m.client) && l.finished && !l.locked_sent
                && l.pending_outputs@.len() == 0
            &&& r.1 is None
            &&& *final(slot) == *old(slot)
            &&& *final(d) == *old(d)
            &&& final(out).sent@ == old(out).sent@.push(sent(m.client, id, Event::LockFinished))
        },
        !held_alive(*old(slot)) ==> {
            let owing = names(old(d).outputs@);
            &&& r.0 matches LockOutcome::Held { wake } && wake == old(d).dpms_off
            &&& lit(*old(d), *final(d), r.1)
            &&& final(slot).lock is Some
            &&& starts(final(slot).lock->0, id, m.client)
            &&& !final(slot).lock->0.finished
            &&& final(slot).lock->0.progress() == (Progress {
                pending: owing,
                staged: Seq::empty(),
                told: owing.len() == 0,
                dead: false,
            })
            &&& final(out).sent@ == (if owing.len() == 0 {
                old(out).sent@.push(sent(m.client, id, Event::LockLocked))
            } else {
                old(out).sent@
            })
        },
{
    let outs: Vec<String> = names_of(&d.outputs);
    let outcome: LockOutcome = m.lock(out, slot, id, outs, d.dpms_off);
    match outcome {
        LockOutcome::Finished(l) => (LockOutcome::Finished(l), None),
        LockOutcome::Held { wake } => {
            assert(texts(slot.lock->0.staged_outputs@) =~= Seq::<Seq<char>>::empty());
            let set: Option<Vec<(u32, u32)>> = light(d);
            (LockOutcome::Held { wake }, set)
        },
    }
}

/// A lock leaves no output in the dark: after it none is, and each that owes a frame may
/// present one.
pub proof fn locks_leave_no_output_dark(a: Display, b: Display, set: Option<Vec<(u32, u32)>>, i: int)
    requires
        lit(a, b, set),
        a.dpms_off,
        0 <= i < a.outputs@.len(),
    ensures
        !b.dpms_off,
        b.outputs@.len() == a.outputs@.len(),
        !b.outputs@[i].paused && !b.outputs@[i].flip_pending,
        names(b.outputs@) == names(a.outputs@),
{
    assert(b.outputs@[i] == dpms_head(true)(a.outputs@[i]));
    assert(names(b.outputs@) =~= names(a.outputs@));
}

} // verus!
