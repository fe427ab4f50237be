//! Foreign toplevels: taskbars, docks and overviews see the window list and drive it.
//! Every burst of properties ends in exactly one done, on which clients latch.
use crate::list::retain;
use crate::output::Output;
use crate::protocol::events::{sent, Event, Out, Sent};
use crate::protocol::image_copy_capture::{
    all_ended, endings, follows_window, not_of, IccSession,
};
use crate::protocol::interfaces::Interface;
use crate::protocol::ObjectId;
use crate::text::same_text;
use vstd::prelude::*;

verus! {

/// the version from which a handle speaks of fullscreen
pub const FULLSCREEN_SINCE: u32 = 2;

/// A mapped window as the handles describe it.
pub struct WindowFacts {
    pub uid: u64,
    pub title: String,
    pub app_id: String,
    pub fullscreen: bool,
    pub focused: bool,
    /// the output slot of its workspace; the first without one
    pub slot: usize,
}

/// A client's binding of an output.
pub struct OutputBind {
    pub client: u32,
    pub id: ObjectId,
    pub name: String,
}

pub struct FtlManager {
    pub id: ObjectId,
    pub client: u32,
    pub version: u32,
    /// nothing is announced any more; live handles keep their events
    pub stopped: bool,
    pub handles: Vec<FtlHandle>,
}

#[derive(Clone, Copy, Debug, PartialEq, Eq, Structural)]
pub struct FtlHandle {
    pub id: ObjectId,
    pub client: u32,
    pub version: u32,
    /// identity of the window; none once it closed
    pub window: Option<u64>,
    /// output slot last announced
    pub out_slot: usize,
}

/// The events to a client's bindings of an output name, among the first `n`.
pub open spec fn bind_events(h: FtlHandle, binds: Seq<OutputBind>, n: nat, name: Seq<char>, enter: bool) -> Seq<Sent>
    decreases n,
{
    if n == 0 || n > binds.len() {
        Seq::empty()
    } else {
        let front = bind_events(h, binds, (n - 1) as nat, name, enter);
        let b = binds[n - 1];
        if b.client == h.client && b.name@ == name {
            front.push(
                sent(
                    h.client,
                    h.id,
                    if enter {
                        Event::FtlOutputEnter { output: b.id }
                    } else {
                        Event::FtlOutputLeave { output: b.id }
                    },
                ),
            )
        } else {
            front
        }
    }
}

/// Enter or leave of an output slot, on each of the client's bindings of it.
pub open spec fn output_events(h: FtlHandle, binds: Seq<OutputBind>, outs: Seq<Output>, slot: usize, enter: bool) -> Seq<
    Sent,
> {
    if slot < outs.len() {
        bind_events(h, binds, binds.len(), outs[slot as int].name@, enter)
    } else {
        Seq::empty()
    }
}

/// The state of a window, as far as the handle's version speaks of it.
pub open spec fn state_event(h: FtlHandle, w: WindowFacts) -> Sent {
    sent(
        h.client,
        h.id,
        Event::FtlState { activated: w.focused, fullscreen: w.fullscreen && h.version >= FULLSCREEN_SINCE },
    )
}

pub open spec fn done_event(h: FtlHandle) -> Sent {
    sent(h.client, h.id, Event::FtlDone)
}

/// Everything about a window.
pub open spec fn full_burst(h: FtlHandle, w: WindowFacts, binds: Seq<OutputBind>, outs: Seq<Output>) -> Seq<Sent> {
    seq![
        sent(h.client, h.id, Event::FtlAppId { app_id: w.app_id }),
        sent(h.client, h.id, Event::FtlTitle { title: w.title }),
    ] + output_events(h, binds, outs, h.out_slot, true) + seq![state_event(h, w), done_event(h)]
}

pub open spec fn title_burst(h: FtlHandle, w: WindowFacts) -> Seq<Sent> {
    seq![sent(h.client, h.id, Event::FtlTitle { title: w.title }), done_event(h)]
}

pub open spec fn app_id_burst(h: FtlHandle, w: WindowFacts) -> Seq<Sent> {
    seq![sent(h.client, h.id, Event::FtlAppId { app_id: w.app_id }), done_event(h)]
}

pub open spec fn state_burst(h: FtlHandle, w: WindowFacts) -> Seq<Sent> {
    seq![state_event(h, w), done_event(h)]
}

/// A window moved to an output: out of the old one, into the new one.
pub open spec fn move_burst(h: FtlHandle, slot: usize, binds: Seq<OutputBind>, outs: Seq<Output>) -> Seq<Sent> {
    if h.out_slot == slot {
        Seq::empty()
    } else {
        output_events(h, binds, outs, h.out_slot, false) + output_events(h, binds, outs, slot, true) + seq![
            done_event(h),
        ]
    }
}

fn send_outputs(h: &FtlHandle, out: &mut Out, binds: &Vec<OutputBind>, outs: &Vec<Output>, slot: usize, enter: bool)
    ensures
        final(out).sent@ == old(out).sent@ + output_events(*h, binds@, outs@, slot, enter),
{
    let ghost start = out.sent@;
    assert(start + Seq::<Sent>::empty() =~= start);
    if slot >= outs.len() {
        return;
    }
    let n: usize = binds.len();
    for i in 0..n
        invariant
            n == binds@.len(),
            slot < outs@.len(),
            start == old(out).sent@,
            out.sent@ == start + bind_events(*h, binds@, i as nat, outs@[slot as int].name@, enter),
    {
        if binds[i].client == h.client && same_text(binds[i].name.as_str(), outs[slot].name.as_str()) {
            if enter {
                out.event(h.client, h.id, Event::FtlOutputEnter { output: binds[i].id });
            } else {
                out.event(h.client, h.id, Event::FtlOutputLeave { output: binds[i].id });
            }
        }
        assert(out.sent@ =~= start + bind_events(*h, binds@, (i + 1) as nat, outs@[slot as int].name@, enter));
    }
}

fn send_state(h: &FtlHandle, out: &mut Out, w: &WindowFacts)
    ensures
        final(out).sent@ == old(out).sent@ + state_burst(*h, *w),
{
    out.event(
        h.client,
        h.id,
        Event::FtlState { activated: w.focused, fullscreen: w.fullscreen && h.version >= FULLSCREEN_SINCE },
    );
    out.event(h.client, h.id, Event::FtlDone);
    assert(out.sent@ =~= old(out).sent@ + state_burst(*h, *w));
}

fn send_full(h: &FtlHandle, out: &mut Out, w: &WindowFacts, binds: &Vec<OutputBind>, outs: &Vec<Output>)
    ensures
        final(out).sent@ == old(out).sent@ + full_burst(*h, *w, binds@, outs@),
{
    out.event(h.client, h.id, Event::FtlAppId { app_id: w.app_id.clone() });
    out.event(h.client, h.id, Event::FtlTitle { title: w.title.clone() });
    send_outputs(h, out, binds, outs, h.out_slot, true);
    send_state(h, out, w);
    assert(out.sent@ =~= old(out).sent@ + full_burst(*h, *w, binds@, outs@));
}

/// The handle of a window that a manager hands out.
pub open spec fn handle_of(client: u32, version: u32, id: ObjectId, w: WindowFacts) -> FtlHandle {
    FtlHandle { id, client, version, window: Some(w.uid), out_slot: w.slot }
}

/// The announcement of a window.
pub open spec fn announcement(
    client: u32,
    version: u32,
    manager: ObjectId,
    id: ObjectId,
    w: WindowFacts,
    binds: Seq<OutputBind>,
    outs: Seq<Output>,
) -> Seq<Sent> {
    seq![sent(client, manager, Event::FtlToplevel { id })] + full_burst(
        handle_of(client, version, id, w),
        w,
        binds,
        outs,
    )
}

fn publish(
    m: &mut FtlManager,
    out: &mut Out,
    w: &WindowFacts,
    id: ObjectId,
    binds: &Vec<OutputBind>,
    outs: &Vec<Output>,
)
    ensures
        final(m).handles@ == old(m).handles@.push(handle_of(old(m).client, old(m).version, id, *w)),
        *final(m) == (FtlManager { handles: final(m).handles, ..*old(m) }),
        final(out).sent@ == old(out).sent@ + announcement(
            old(m).client,
            old(m).version,
            old(m).id,
            id,
            *w,
            binds@,
            outs@,
        ),
{
    let h = FtlHandle { id, client: m.client, version: m.version, window: Some(w.uid), out_slot: w.slot };
    m.handles.push(h);
    out.event(m.client, m.id, Event::FtlToplevel { id });
    send_full(&h, out, w, binds, outs);
    assert(out.sent@ =~= old(out).sent@ + announcement(
        old(m).client,
        old(m).version,
        old(m).id,
        id,
        *w,
        binds@,
        outs@,
    ));
}

pub struct ForeignToplevelGlobal;

/// The announcements of the first `n` windows to a new manager.
pub open spec fn introductions(
    client: u32,
    version: u32,
    manager: ObjectId,
    wins: Seq<WindowFacts>,
    n: nat,
    fresh: Seq<ObjectId>,
    binds: Seq<OutputBind>,
    outs: Seq<Output>,
) -> Seq<Sent>
    decreases n,
{
    if n == 0 || n > wins.len() {
        Seq::empty()
    } else {
        introductions(client, version, manager, wins, (n - 1) as nat, fresh, binds, outs) + announcement(
            client,
            version,
            manager,
            fresh[n - 1],
            wins[n - 1],
            binds,
            outs,
        )
    }
}

impl ForeignToplevelGlobal {
    pub fn interface(&self) -> (r: Interface)
        ensures
            r is ZwlrForeignToplevelManagerV1,
    {
        Interface::ZwlrForeignToplevelManagerV1
    }

    pub fn version(&self) -> (r: u32)
        ensures
            r == 3,
    {
        3
    }

    /// A new manager is told of every mapped window. `fresh` are unused server ids,
    /// one per window.
    pub fn bind(
        &self,
        out: &mut Out,
        client: u32,
        id: ObjectId,
        version: u32,
        wins: &Vec<WindowFacts>,
        fresh: &Vec<ObjectId>,
        binds: &Vec<OutputBind>,
        outs: &Vec<Output>,
    ) -> (r: FtlManager)
        requires
            fresh@.len() >= wins@.len(),
        ensures
            r.id == id && r.client == client && r.version == version && !r.stopped,
            r.handles@ == Seq::new(wins@.len(), |i: int| handle_of(client, version, fresh@[i], wins@[i])),
            final(out).sent@ == old(out).sent@ + introductions(
                client,
                version,
                id,
                wins@,
                wins@.len(),
                fresh@,
                binds@,
                outs@,
            ),
    {
        let mut m = FtlManager { id, client, version, stopped: false, handles: Vec::new() };
        let ghost start = out.sent@;
        assert(start + Seq::<Sent>::empty() =~= start);
        for i in 0..wins.len()
            invariant
                start == old(out).sent@,
                fresh@.len() >= wins@.len(),
                m.id == id && m.client == client && m.version == version && !m.stopped,
                m.handles@ == Seq::new(i as nat, |j: int| handle_of(client, version, fresh@[j], wins@[j])),
                out.sent@ == start + introductions(client, version, id, wins@, i as nat, fresh@, binds@, outs@),
        {
            publish(&mut m, out, &wins[i], fresh[i], binds, outs);
            assert(m.handles@ =~= Seq::new(
                (i + 1) as nat,
                |j: int| handle_of(client, version, fresh@[j], wins@[j]),
            ));
            assert(out.sent@ =~= start + introductions(
                client,
                version,
                id,
                wins@,
                (i + 1) as nat,
                fresh@,
                binds@,
                outs@,
            ));
        }
        m
    }
}

impl FtlManager {
    /// Nothing more is announced; live handles keep their events.
    pub fn stop(&mut self, out: &mut Out)
        ensures
            *final(self) == (FtlManager { stopped: true, ..*old(self) }),
            final(out).sent@ == old(out).sent@.push(sent(old(self).client, old(self).id, Event::FtlFinished)),
    {
        self.stopped = true;
        out.event(self.client, self.id, Event::FtlFinished);
    }

    /// The client is gone.
    pub fn break_loops(&mut self)
        ensures
            final(self).handles@.len() == 0,
            *final(self) == (FtlManager { handles: final(self).handles, ..*old(self) }),
    {
        self.handles = Vec::new();
    }
}

/// What a request of a handle asks the window tree for.
#[derive(Clone, Copy, Debug, PartialEq, Eq, Structural)]
pub enum Wish {
    /// Bring up its workspace, if it has one, and give the window the keyboard.
    Activate { window: u64, workspace: Option<usize> },
    Close { window: u64 },
    Fullscreen { window: u64, on: bool },
}

pub open spec fn not_handle(client: u32, id: ObjectId) -> spec_fn(FtlHandle) -> bool {
    |h: FtlHandle| !(h.id == id && h.client == client)
}

impl FtlHandle {
    /// `workspace` is the index of the window's workspace.
    pub fn activate(&self, workspace: Option<usize>) -> (r: Option<Wish>)
        ensures
            r == (match self.window {
                Some(window) => Some(Wish::Activate { window, workspace }),
                None => None,
            }),
    {
        match self.window {
            Some(window) => Some(Wish::Activate { window, workspace }),
            None => None,
        }
    }

    pub fn close(&self) -> (r: Option<Wish>)
        ensures
            r == (match self.window {
                Some(window) => Some(Wish::Close { window }),
                None => None,
            }),
    {
        match self.window {
            Some(window) => Some(Wish::Close { window }),
            None => None,
        }
    }

    pub fn set_fullscreen(&self) -> (r: Option<Wish>)
        ensures
            r == (match self.window {
                Some(window) => Some(Wish::Fullscreen { window, on: true }),
                None => None,
            }),
    {
        match self.window {
            Some(window) => Some(Wish::Fullscreen { window, on: true }),
            None => None,
        }
    }

    pub fn unset_fullscreen(&self) -> (r: Option<Wish>)
        ensures
            r == (match self.window {
                Some(window) => Some(Wish::Fullscreen { window, on: false }),
                None => None,
            }),
    {
        match self.window {
            Some(window) => Some(Wish::Fullscreen { window, on: false }),
            None => None,
        }
    }

    /// The client lets go of the handle: nothing more is sent to it.
    pub fn destroy(&self, managers: &mut Vec<FtlManager>)
        ensures
            final(managers)@.len() == old(managers)@.len(),
            forall|i: int|
                0 <= i < old(managers)@.len() ==> {
                    &&& (#[trigger] final(managers)@[i]).handles@ == old(managers)@[i].handles@.filter(
                        not_handle(self.client, self.id),
                    )
                    &&& final(managers)@[i] == (FtlManager {
                        handles: final(managers)@[i].handles,
                        ..old(managers)@[i]
                    })
                },
    {
        let (client, id): (u32, ObjectId) = (self.client, self.id);
        let ghost all = managers@;
        let n: usize = managers.len();
        for i in 0..n
            invariant
                all == old(managers)@,
                n == all.len(),
                client == self.client,
                id == self.id,
                managers@.len() == n,
                forall|j: int| i <= j < n ==> managers@[j] == all[j],
                forall|j: int|
                    0 <= j < i ==> {
                        &&& (#[trigger] managers@[j]).handles@ == all[j].handles@.filter(
                            not_handle(self.client, self.id),
                        )
                        &&& managers@[j] == (FtlManager { handles: managers@[j].handles, ..all[j] })
                    },
        {
            retain(
                &mut managers[i].handles,
                |h: &FtlHandle| -> (b: bool) ensures b == !(h.id == id && h.client == client) { !(h.id.0 == id.0 && h.client == client) },
                Ghost(not_handle(client, id)),
            );
        }
    }

    /// The client is gone.
    pub fn break_loops(&mut self)
        ensures
            *final(self) == (FtlHandle { window: None, ..*old(self) }),
    {
        self.window = None;
    }
}

pub open spec fn of_window(window: u64) -> spec_fn(FtlHandle) -> bool {
    |h: FtlHandle| h.window == Some(window)
}

/// The handles of a window, manager by manager, among the first `n` managers.
pub open spec fn handles_of(managers: Seq<FtlManager>, n: nat, window: u64) -> Seq<FtlHandle>
    decreases n,
{
    if n == 0 || n > managers.len() {
        Seq::empty()
    } else {
        handles_of(managers, (n - 1) as nat, window) + managers[n - 1].handles@.filter(of_window(window))
    }
}

fn is_for(h: &FtlHandle, window: u64) -> (r: bool)
    ensures
        r == of_window(window)(*h),
{
    match h.window {
        Some(w) => w == window,
        None => false,
    }
}

fn for_window(managers: &Vec<FtlManager>, window: u64) -> (r: Vec<FtlHandle>)
    ensures
        r@ == handles_of(managers@, managers@.len(), window),
{
    let mut v: Vec<FtlHandle> = Vec::new();
    for i in 0..managers.len()
        invariant
            v@ == handles_of(managers@, i as nat, window),
    {
        let ghost front = v@;
        let hs: &Vec<FtlHandle> = &managers[i].handles;
        let ghost all = hs@;
        proof {
            reveal(Seq::filter);
            assert(all.take(0).filter(of_window(window)) =~= Seq::<FtlHandle>::empty());
            assert(front + Seq::<FtlHandle>::empty() =~= front);
        }
        for j in 0..hs.len()
            invariant
                all == hs@,
                v@ == front + all.take(j as int).filter(of_window(window)),
        {
            proof {
                reveal(Seq::filter);
                assert(all.take(j + 1).drop_last() =~= all.take(j as int));
            }
            if is_for(&hs[j], window) {
                v.push(hs[j]);
            }
            assert(v@ =~= front + all.take(j + 1).filter(of_window(window)));
        }
        assert(all.take(all.len() as int) =~= all);
    }
    v
}

/// What a list of handles is told, handle by handle, among the first `n`.
pub open spec fn told_each(hs: Seq<FtlHandle>, n: nat, burst: spec_fn(FtlHandle) -> Seq<Sent>) -> Seq<Sent>
    decreases n,
{
    if n == 0 || n > hs.len() {
        Seq::empty()
    } else {
        told_each(hs, (n - 1) as nat, burst) + burst(hs[n - 1])
    }
}

/// What the handles of a window are told.
pub open spec fn told_handles(managers: Seq<FtlManager>, window: u64, burst: spec_fn(FtlHandle) -> Seq<Sent>) -> Seq<Sent> {
    let hs = handles_of(managers, managers.len(), window);
    told_each(hs, hs.len(), burst)
}

/// How many of the first `n` managers still announce.
pub open spec fn announcing(managers: Seq<FtlManager>, n: nat) -> nat
    decreases n,
{
    if n == 0 || n > managers.len() {
        0
    } else {
        announcing(managers, (n - 1) as nat) + (if managers[n - 1].stopped { 0nat } else { 1nat })
    }
}

/// The announcements of a window by the first `n` managers.
pub open spec fn announcements(
    managers: Seq<FtlManager>,
    n: nat,
    w: WindowFacts,
    fresh: Seq<ObjectId>,
    binds: Seq<OutputBind>,
    outs: Seq<Output>,
) -> Seq<Sent>
    decreases n,
{
    if n == 0 || n > managers.len() {
        Seq::empty()
    } else {
        let front = announcements(managers, (n - 1) as nat, w, fresh, binds, outs);
        let m = managers[n - 1];
        if m.stopped {
            front
        } else {
            front + announcement(
                m.client,
                m.version,
                m.id,
                fresh[announcing(managers, (n - 1) as nat) as int],
                w,
                binds,
                outs,
            )
        }
    }
}

/// The manager knows the window by a handle of that id now, or announces nothing.
pub open spec fn introduced(a: FtlManager, b: FtlManager, w: WindowFacts, id: ObjectId) -> bool {
    if a.stopped {
        b == a
    } else {
        &&& b.handles@ == a.handles@.push(handle_of(a.client, a.version, id, w))
        &&& b == (FtlManager { handles: b.handles, ..a })
    }
}

proof fn announcing_grows(managers: Seq<FtlManager>, a: nat, b: nat)
    requires
        a <= b <= managers.len(),
    ensures
        announcing(managers, a) <= announcing(managers, b) <= b,
    decreases b,
{
    if a < b {
        announcing_grows(managers, a, (b - 1) as nat);
    } else if b > 0 {
        announcing_grows(managers, (b - 1) as nat, (b - 1) as nat);
    }
}

/// A window was mapped: every manager that still announces gets a handle. `fresh` are
/// unused server ids, one per such manager.
pub fn window_mapped(
    managers: &mut Vec<FtlManager>,
    out: &mut Out,
    w: &WindowFacts,
    fresh: &Vec<ObjectId>,
    binds: &Vec<OutputBind>,
    outs: &Vec<Output>,
)
    requires
        fresh@.len() >= announcing(old(managers)@, old(managers)@.len()),
    ensures
        final(managers)@.len() == old(managers)@.len(),
        forall|i: int|
            0 <= i < old(managers)@.len() ==> introduced(
                old(managers)@[i],
                #[trigger] final(managers)@[i],
                *w,
                fresh@[announcing(old(managers)@, i as nat) as int],
            ),
        final(out).sent@ == old(out).sent@ + announcements(
            old(managers)@,
            old(managers)@.len(),
            *w,
            fresh@,
            binds@,
            outs@,
        ),
{
    let ghost all = managers@;
    let ghost start = out.sent@;
    assert(start + Seq::<Sent>::empty() =~= start);
    let n: usize = managers.len();
    let mut used: usize = 0;
    for i in 0..n
        invariant
            all == old(managers)@,
            start == old(out).sent@,
            n == all.len(),
            fresh@.len() >= announcing(all, n as nat),
            used == announcing(all, i as nat),
            managers@.len() == n,
            forall|j: int| i <= j < n ==> managers@[j] == all[j],
            forall|j: int|
                0 <= j < i ==> introduced(
                    all[j],
                    #[trigger] managers@[j],
                    *w,
                    fresh@[announcing(all, j as nat) as int],
                ),
            out.sent@ == start + announcements(all, i as nat, *w, fresh@, binds@, outs@),
    {
        proof {
            announcing_grows(all, (i + 1) as nat, n as nat);
        }
        if !managers[i].stopped {
            publish(&mut managers[i], out, w, fresh[used], binds, outs);
            used = used + 1;
        }
        assert(out.sent@ =~= start + announcements(all, (i + 1) as nat, *w, fresh@, binds@, outs@));
    }
}

pub open spec fn closed_burst() -> spec_fn(FtlHandle) -> Seq<Sent> {
    |h: FtlHandle| seq![sent(h.client, h.id, Event::FtlClosed)]
}

/// Handles that still stand for a window, other than one.
pub open spec fn outlives(window: u64) -> spec_fn(FtlHandle) -> bool {
    |h: FtlHandle| h.window is Some && h.window != Some(window)
}

/// A window is gone: captures of it end, and its handles are closed.
pub fn window_unmapped(managers: &mut Vec<FtlManager>, sessions: &mut Vec<IccSession>, out: &mut Out, window: u64)
    ensures
        final(sessions)@ == all_ended(old(sessions)@, follows_window(window)),
        final(managers)@.len() == old(managers)@.len(),
        forall|i: int|
            0 <= i < old(managers)@.len() ==> {
                &&& (#[trigger] final(managers)@[i]).handles@ == old(managers)@[i].handles@.filter(outlives(window))
                &&& final(managers)@[i] == (FtlManager { handles: final(managers)@[i].handles, ..old(managers)@[i] })
            },
        final(out).sent@ == old(out).sent@ + endings(old(sessions)@, follows_window(window)) + told_handles(
            old(managers)@,
            window,
            closed_burst(),
        ),
{
    crate::protocol::image_copy_capture::window_unmapped(sessions, out, window);
    let hs: Vec<FtlHandle> = for_window(managers, window);
    let ghost start = out.sent@;
    assert(start + Seq::<Sent>::empty() =~= start);
    for i in 0..hs.len()
        invariant
            out.sent@ == start + told_each(hs@, i as nat, closed_burst()),
    {
        out.event(hs[i].client, hs[i].id, Event::FtlClosed);
        assert(out.sent@ =~= start + told_each(hs@, (i + 1) as nat, closed_burst()));
    }
    let ghost all = managers@;
    let n: usize = managers.len();
    for i in 0..n
        invariant
            all == old(managers)@,
            n == all.len(),
            managers@.len() == n,
            forall|j: int| i <= j < n ==> managers@[j] == all[j],
            forall|j: int|
                0 <= j < i ==> {
                    &&& (#[trigger] managers@[j]).handles@ == all[j].handles@.filter(outlives(window))
                    &&& managers@[j] == (FtlManager { handles: managers@[j].handles, ..all[j] })
                },
    {
        retain(
            &mut managers[i].handles,
            |h: &FtlHandle| -> (b: bool) ensures b == outlives(window)(*h) { h.window.is_some() && !is_for(h, window) },
            Ghost(outlives(window)),
        );
    }
}

pub open spec fn title_bursts(w: WindowFacts) -> spec_fn(FtlHandle) -> Seq<Sent> {
    |h: FtlHandle| title_burst(h, w)
}

pub open spec fn app_id_bursts(w: WindowFacts) -> spec_fn(FtlHandle) -> Seq<Sent> {
    |h: FtlHandle| app_id_burst(h, w)
}

pub open spec fn state_bursts(w: WindowFacts) -> spec_fn(FtlHandle) -> Seq<Sent> {
    |h: FtlHandle| state_burst(h, w)
}

pub open spec fn move_bursts(slot: usize, binds: Seq<OutputBind>, outs: Seq<Output>) -> spec_fn(FtlHandle) -> Seq<Sent> {
    |h: FtlHandle| move_burst(h, slot, binds, outs)
}

/// A window has a new title.
pub fn title_changed(managers: &Vec<FtlManager>, out: &mut Out, w: &WindowFacts)
    ensures
        final(out).sent@ == old(out).sent@ + told_handles(managers@, w.uid, title_bursts(*w)),
{
    let hs: Vec<FtlHandle> = for_window(managers, w.uid);
    let ghost start = out.sent@;
    assert(start + Seq::<Sent>::empty() =~= start);
    for i in 0..hs.len()
        invariant
            out.sent@ == start + told_each(hs@, i as nat, title_bursts(*w)),
    {
        out.event(hs[i].client, hs[i].id, Event::FtlTitle { title: w.title.clone() });
        out.event(hs[i].client, hs[i].id, Event::FtlDone);
        assert(out.sent@ =~= start + told_each(hs@, (i + 1) as nat, title_bursts(*w)));
    }
}

/// A window has a new application id.
pub fn app_id_changed(managers: &Vec<FtlManager>, out: &mut Out, w: &WindowFacts)
    ensures
        final(out).sent@ == old(out).sent@ + told_handles(managers@, w.uid, app_id_bursts(*w)),
{
    let hs: Vec<FtlHandle> = for_window(managers, w.uid);
    let ghost start = out.sent@;
    assert(start + Seq::<Sent>::empty() =~= start);
    for i in 0..hs.len()
        invariant
            out.sent@ == start + told_each(hs@, i as nat, app_id_bursts(*w)),
    {
        out.event(hs[i].client, hs[i].id, Event::FtlAppId { app_id: w.app_id.clone() });
        out.event(hs[i].client, hs[i].id, Event::FtlDone);
        assert(out.sent@ =~= start + told_each(hs@, (i + 1) as nat, app_id_bursts(*w)));
    }
}

/// A window has a new state.
pub fn state_changed(managers: &Vec<FtlManager>, out: &mut Out, w: &WindowFacts)
    ensures
        final(out).sent@ == old(out).sent@ + told_handles(managers@, w.uid, state_bursts(*w)),
{
    let hs: Vec<FtlHandle> = for_window(managers, w.uid);
    let ghost start = out.sent@;
    assert(start + Seq::<Sent>::empty() =~= start);
    for i in 0..hs.len()
        invariant
            out.sent@ == start + told_each(hs@, i as nat, state_bursts(*w)),
    {
        send_state(&hs[i], out, w);
        assert(out.sent@ =~= start + told_each(hs@, (i + 1) as nat, state_bursts(*w)));
    }
}

pub open spec fn restated(managers: Seq<FtlManager>, w: Option<&WindowFacts>) -> Seq<Sent> {
    match w {
        Some(w) => told_handles(managers, w.uid, state_bursts(*w)),
        None => Seq::empty(),
    }
}

/// The focus moved from one window to another: both re-state.
pub fn focus_changed(managers: &Vec<FtlManager>, out: &mut Out, was: Option<&WindowFacts>, now: Option<&WindowFacts>)
    ensures
        final(out).sent@ == (if match (was, now) {
            (Some(a), Some(b)) => a.uid == b.uid,
            (None, None) => true,
            _ => false,
        } {
            old(out).sent@
        } else {
            old(out).sent@ + restated(managers@, was) + restated(managers@, now)
        }),
{
    let same: bool = match (was, now) {
        (Some(a), Some(b)) => a.uid == b.uid,
        (None, None) => true,
        _ => false,
    };
    if same {
        return;
    }
    let ghost start = out.sent@;
    assert(start + Seq::<Sent>::empty() =~= start);
    match was {
        Some(w) => state_changed(managers, out, w),
        None => {},
    }
    let ghost mid = out.sent@;
    assert(mid + Seq::<Sent>::empty() =~= mid);
    match now {
        Some(w) => state_changed(managers, out, w),
        None => {},
    }
}

fn move_handles(hs: &mut Vec<FtlHandle>, window: u64, slot: usize)
    ensures
        final(hs)@ == moved(old(hs)@, window, slot),
{
    let ghost all = hs@;
    let n: usize = hs.len();
    for i in 0..n
        invariant
            all == old(hs)@,
            n == all.len(),
            hs@.len() == n,
            forall|j: int| i <= j < n ==> hs@[j] == all[j],
            forall|j: int| 0 <= j < i ==> #[trigger] hs@[j] == moved(all, window, slot)[j],
    {
        if is_for(&hs[i], window) {
            hs[i].out_slot = slot;
        }
    }
    assert(hs@ =~= moved(all, window, slot));
}

/// The handles, those of a window on an output slot.
pub open spec fn moved(hs: Seq<FtlHandle>, window: u64, slot: usize) -> Seq<FtlHandle> {
    Seq::new(
        hs.len(),
        |i: int| if of_window(window)(hs[i]) { FtlHandle { out_slot: slot, ..hs[i] } } else { hs[i] },
    )
}

/// A window may be on another output now: its slot is `w.slot`.
pub fn output_changed(
    managers: &mut Vec<FtlManager>,
    out: &mut Out,
    w: &WindowFacts,
    binds: &Vec<OutputBind>,
    outs: &Vec<Output>,
)
    ensures
        final(managers)@.len() == old(managers)@.len(),
        forall|i: int|
            0 <= i < old(managers)@.len() ==> {
                &&& (#[trigger] final(managers)@[i]).handles@ == moved(old(managers)@[i].handles@, w.uid, w.slot)
                &&& final(managers)@[i] == (FtlManager { handles: final(managers)@[i].handles, ..old(managers)@[i] })
            },
        final(out).sent@ == old(out).sent@ + told_handles(old(managers)@, w.uid, move_bursts(w.slot, binds@, outs@)),
{
    let hs: Vec<FtlHandle> = for_window(managers, w.uid);
    let ghost start = out.sent@;
    let ghost burst = move_bursts(w.slot, binds@, outs@);
    assert(start + Seq::<Sent>::empty() =~= start);
    for i in 0..hs.len()
        invariant
            burst == move_bursts(w.slot, binds@, outs@),
            out.sent@ == start + told_each(hs@, i as nat, burst),
    {
        let ghost mid = out.sent@;
        if hs[i].out_slot != w.slot {
            send_outputs(&hs[i], out, binds, outs, hs[i].out_slot, false);
            send_outputs(&hs[i], out, binds, outs, w.slot, true);
            out.event(hs[i].client, hs[i].id, Event::FtlDone);
            assert(out.sent@ =~= mid + burst(hs@[i as int]));
        } else {
            assert(out.sent@ =~= mid + burst(hs@[i as int]));
        }
        assert(out.sent@ =~= start + told_each(hs@, (i + 1) as nat, burst));
    }
    let ghost all = managers@;
    let n: usize = managers.len();
    for i in 0..n
        invariant
            all == old(managers)@,
            n == all.len(),
            managers@.len() == n,
            forall|j: int| i <= j < n ==> managers@[j] == all[j],
            forall|j: int|
                0 <= j < i ==> {
                    &&& (#[trigger] managers@[j]).handles@ == moved(all[j].handles@, w.uid, w.slot)
                    &&& managers@[j] == (FtlManager { handles: managers@[j].handles, ..all[j] })
                },
    {
        move_handles(&mut managers[i].handles, w.uid, w.slot);
    }
}

pub open spec fn not_manager_of(client: u32) -> spec_fn(FtlManager) -> bool {
    |m: FtlManager| m.client != client
}

/// A client is gone, and its managers and captures with it.
pub fn drop_client(managers: &mut Vec<FtlManager>, sessions: &mut Vec<IccSession>, client: u32)
    ensures
        final(managers)@ == old(managers)@.filter(not_manager_of(client)),
        final(sessions)@ == old(sessions)@.filter(not_of(client)),
{
    crate::protocol::image_copy_capture::drop_client(sessions, client);
    retain(
        managers,
        |m: &FtlManager| -> (b: bool) ensures b == (m.client != client) { m.client != client },
        Ghost(not_manager_of(client)),
    );
}

/// A sequence of events ends in a done, and holds no other.
pub open spec fn ends_in_one_done(s: Seq<Sent>) -> bool {
    &&& s.len() > 0
    &&& forall|i: int| 0 <= i < s.len() ==> ((#[trigger] s[i]).event is FtlDone <==> i == s.len() - 1)
}

proof fn outputs_hold_no_done(h: FtlHandle, binds: Seq<OutputBind>, n: nat, name: Seq<char>, enter: bool)
    ensures
        forall|i: int|
            0 <= i < bind_events(h, binds, n, name, enter).len() ==> !((#[trigger] bind_events(
                h,
                binds,
                n,
                name,
                enter,
            )[i]).event is FtlDone),
    decreases n,
{
    if n > 0 && n <= binds.len() {
        outputs_hold_no_done(h, binds, (n - 1) as nat, name, enter);
    }
}

/// Every burst of properties ends in exactly one done.
pub proof fn bursts_end_in_one_done(h: FtlHandle, w: WindowFacts, slot: usize, binds: Seq<OutputBind>, outs: Seq<Output>)
    ensures
        ends_in_one_done(full_burst(h, w, binds, outs)),
        ends_in_one_done(title_burst(h, w)),
        ends_in_one_done(app_id_burst(h, w)),
        ends_in_one_done(state_burst(h, w)),
        h.out_slot != slot ==> ends_in_one_done(move_burst(h, slot, binds, outs)),
{
    if h.out_slot < outs.len() {
        outputs_hold_no_done(h, binds, binds.len(), outs[h.out_slot as int].name@, true);
        outputs_hold_no_done(h, binds, binds.len(), outs[h.out_slot as int].name@, false);
    }
    if slot < outs.len() {
        outputs_hold_no_done(h, binds, binds.len(), outs[slot as int].name@, true);
    }
}

} // verus!
