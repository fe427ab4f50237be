//! What the rest of the session hears when heads come and go: globals, capture sessions
//! and the lock when one leaves; lock surfaces, layer surfaces and tiling areas once the
//! row is laid out again.
use crate::list::{find, retain};
use crate::output::topology::{
    bottom_edge, farthest, has_left, head_set, layer_move_spec, probed, rebound, relaid_row, replug, rescan, right_edge,
    settle_keeps_rest, settle_spec, span, still_connected, survivor_spec, tiled_all, union_extent, watched, LayerMove,
    LayerPin, Layout, Port, Probe,
};
use crate::output::{first_slot, sizes_fit, Output};
use crate::protocol::display::{Global, WlRegistry};
use crate::protocol::events::{sent, Event, Out, Sent};
use crate::protocol::image_copy_capture::{self, all_ended, endings, follows_output, IccSession};
use crate::protocol::session_lock::{
    self, after_removing, configures_on, off_output, output_rect, output_rect_spec, reconfigured,
    removed_news, serial_after, Configure, LockSlot, LockSurface, Progress, SessionLock,
};
use crate::protocol::ObjectId;
use crate::rect::Rect;
use crate::shell::layer::{
    all_wf, arrange, arranged, arranged_on, bounds, list_fits, newly_queued, nothing, usable_area, Effects,
    LayerSurface, Layers,
};
use vstd::prelude::*;

verus! {

/// A global that is not this one.
pub open spec fn other_global(name: u32) -> spec_fn(Global) -> bool {
    |g: Global| g.name != name
}

/// What the registries hear when a global goes.
pub open spec fn removals(registries: Seq<WlRegistry>, name: u32) -> Seq<Sent> {
    Seq::new(
        registries.len(),
        |i: int| sent(registries[i].client, registries[i].id, Event::GlobalRemove { name }),
    )
}

/// Takes a global out of the list and tells every registry.
pub fn remove_global(globals: &mut Vec<Global>, registries: &Vec<WlRegistry>, name: u32, out: &mut Out)
    ensures
        final(globals)@ == old(globals)@.filter(other_global(name)),
        final(out).sent@ == old(out).sent@ + removals(registries@, name),
{
    retain(
        globals,
        |g: &Global| -> (b: bool) ensures b == (g.name != name) { g.name != name },
        Ghost(other_global(name)),
    );
    let n: usize = registries.len();
    let ghost start = out.sent@;
    assert(out.sent@ =~= start + removals(registries@, name).take(0));
    for i in 0..n
        invariant
            n == registries@.len(),
            out.sent@ == start + removals(registries@, name).take(i as int),
    {
        registries[i].send_global_remove(out, name);
        assert(out.sent@ =~= start + removals(registries@, name).take(i + 1));
    }
    assert(removals(registries@, name).take(n as int) =~= removals(registries@, name));
}

/// A lock, as the outputs that leave see it.
#[verifier::ext_equal]
pub ghost struct LockV {
    pub id: ObjectId,
    pub client: u32,
    pub finished: bool,
    pub progress: Progress,
    pub surfaces: Seq<LockSurface>,
}

pub open spec fn lock_view(slot: LockSlot) -> Option<LockV> {
    match slot.lock {
        None => None,
        Some(l) => Some(
            LockV {
                id: l.id,
                client: l.client,
                finished: l.finished,
                progress: l.progress(),
                surfaces: l.surfaces@,
            },
        ),
    }
}

/// All that an output leaves traces in, and what was said so far.
#[verifier::ext_equal]
pub ghost struct Traces {
    pub globals: Seq<Global>,
    pub sessions: Seq<IccSession>,
    pub lock: Option<LockV>,
    pub events: Seq<Sent>,
}

/// What the lock's client hears when an output goes: that it is locked, when that output was
/// the last that owed a frame.
pub open spec fn lock_says(lock: Option<LockV>, name: Seq<char>) -> Seq<Sent> {
    match lock {
        Some(l) => if after_removing(l.progress, name).told && !l.progress.told {
            seq![sent(l.client, l.id, Event::LockLocked)]
        } else {
            Seq::empty()
        },
        None => Seq::empty(),
    }
}

/// One output left: its global is gone, then the captures of it end, then the lock no
/// longer waits for it.
pub open spec fn without(t: Traces, o: Output, registries: Seq<WlRegistry>) -> Traces {
    Traces {
        globals: t.globals.filter(other_global(o.global_name)),
        sessions: all_ended(t.sessions, follows_output(o.name@)),
        lock: match t.lock {
            None => None,
            Some(l) => Some(
                LockV {
                    progress: after_removing(l.progress, o.name@),
                    surfaces: l.surfaces.filter(off_output(o.name@)),
                    ..l
                },
            ),
        },
        events: t.events + removals(registries, o.global_name) + endings(t.sessions, follows_output(o.name@))
            + lock_says(t.lock, o.name@),
    }
}

/// The first `n` outputs left, one after the other.
pub open spec fn without_all(t: Traces, gone: Seq<Output>, n: nat, registries: Seq<WlRegistry>) -> Traces
    decreases n,
{
    if n == 0 {
        t
    } else {
        without(without_all(t, gone, (n - 1) as nat, registries), gone[n - 1], registries)
    }
}

/// Outputs left, in this order: for each its global is removed, the captures of it end and
/// the lock is told, before the next one's turn.
pub fn depart(
    gone: &Vec<Output>,
    globals: &mut Vec<Global>,
    registries: &Vec<WlRegistry>,
    sessions: &mut Vec<IccSession>,
    lock: &mut LockSlot,
    out: &mut Out,
)
    ensures
        ({
            let start = Traces {
                globals: old(globals)@,
                sessions: old(sessions)@,
                lock: lock_view(*old(lock)),
                events: old(out).sent@,
            };
            let end = without_all(start, gone@, gone@.len(), registries@);
            &&& final(globals)@ == end.globals
            &&& final(sessions)@ == end.sessions
            &&& lock_view(*final(lock)) == end.lock
            &&& final(out).sent@ == end.events
        }),
        old(lock).wf() ==> final(lock).wf(),
{
    let ghost start = Traces {
        globals: globals@,
        sessions: sessions@,
        lock: lock_view(*lock),
        events: out.sent@,
    };
    for i in 0..gone.len()
        invariant
            ({
                let now = without_all(start, gone@, i as nat, registries@);
                &&& globals@ == now.globals
                &&& sessions@ == now.sessions
                &&& lock_view(*lock) == now.lock
                &&& out.sent@ == now.events
            }),
            old(lock).wf() ==> lock.wf(),
    {
        let ghost was = without_all(start, gone@, i as nat, registries@);
        let ghost slot = *lock;
        let name: &str = gone[i].name.as_str();
        remove_global(globals, registries, gone[i].global_name, out);
        image_copy_capture::output_removed(sessions, out, name);
        session_lock::output_removed(lock, out, name);
        let ghost now = without(was, gone@[i as int], registries@);
        assert(without_all(start, gone@, (i + 1) as nat, registries@) == now);
        assert(lock_view(*lock) =~= now.lock);
        assert(removed_news(slot, name@) =~= lock_says(was.lock, name@));
        assert(out.sent@ =~= now.events);
    }
}

/// A monitor came or went: the connectors are probed anew, and the outputs whose monitor left
/// go, each with its global, its captures and its debt to the lock. Returns them, in the
/// order they went, for their pipes to be freed.
pub fn unplug(
    outs: &mut Vec<Output>,
    ports: &mut Vec<Port>,
    probes: Vec<Option<Probe>>,
    globals: &mut Vec<Global>,
    registries: &Vec<WlRegistry>,
    sessions: &mut Vec<IccSession>,
    lock: &mut LockSlot,
    out: &mut Out,
) -> (gone: Vec<Output>)
    requires
        probes@.len() == old(ports)@.len(),
    ensures
        final(ports)@.len() == old(ports)@.len(),
        forall|i: int|
            0 <= i < old(ports)@.len() ==> probed(old(ports)@[i], #[trigger] final(ports)@[i], probes@[i]),
        final(outs)@ == watched(final(ports)@, old(outs)@).filter(still_connected()),
        gone@ == watched(final(ports)@, old(outs)@).filter(has_left()).reverse(),
        ({
            let start = Traces {
                globals: old(globals)@,
                sessions: old(sessions)@,
                lock: lock_view(*old(lock)),
                events: old(out).sent@,
            };
            let end = without_all(start, gone@, gone@.len(), registries@);
            &&& final(globals)@ == end.globals
            &&& final(sessions)@ == end.sessions
            &&& lock_view(*final(lock)) == end.lock
            &&& final(out).sent@ == end.events
        }),
        old(lock).wf() ==> final(lock).wf(),
{
    let gone: Vec<Output> = rescan(outs, ports, probes);
    depart(&gone, globals, registries, sessions, lock, out);
    gone
}

/// Every output that left is forgotten: no capture of it goes on, and the lock neither waits
/// for it nor shows a surface on it.
pub proof fn departed_outputs_leave_no_trace(t: Traces, gone: Seq<Output>, registries: Seq<WlRegistry>, k: int)
    requires
        0 <= k < gone.len(),
    ensures
        ({
            let end = without_all(t, gone, gone.len(), registries);
            &&& forall|i: int|
                0 <= i < end.sessions.len() && follows_output(gone[k].name@)(#[trigger] end.sessions[i])
                    ==> end.sessions[i].stopped
            &&& forall|g: Global| #[trigger] end.globals.contains(g) ==> g.name != gone[k].global_name
            &&& end.lock matches Some(l) ==> forall|s: LockSurface| #[trigger]
                l.surfaces.contains(s) ==> s.output_name@ != gone[k].name@
        }),
{
    traces_stay_gone(t, gone, registries, k, gone.len());
}

proof fn traces_stay_gone(t: Traces, gone: Seq<Output>, registries: Seq<WlRegistry>, k: int, n: nat)
    requires
        0 <= k < n <= gone.len(),
    ensures
        ({
            let end = without_all(t, gone, n, registries);
            &&& forall|i: int|
                0 <= i < end.sessions.len() && follows_output(gone[k].name@)(#[trigger] end.sessions[i])
                    ==> end.sessions[i].stopped
            &&& forall|g: Global| #[trigger] end.globals.contains(g) ==> g.name != gone[k].global_name
            &&& end.lock matches Some(l) ==> forall|s: LockSurface| #[trigger]
                l.surfaces.contains(s) ==> s.output_name@ != gone[k].name@
        }),
    decreases n,
{
    let was = without_all(t, gone, (n - 1) as nat, registries);
    let end = without_all(t, gone, n, registries);
    let o = gone[n - 1];
    if k < n - 1 {
        traces_stay_gone(t, gone, registries, k, (n - 1) as nat);
    }
    assert forall|i: int|
        0 <= i < end.sessions.len() && follows_output(gone[k].name@)(#[trigger] end.sessions[i]) implies end.sessions[i].stopped by {
        let s = was.sessions[i];
        if k < n - 1 {
            assert(follows_output(gone[k].name@)(s) ==> s.stopped);
        }
    }
    assert forall|g: Global| #[trigger] end.globals.contains(g) implies g.name != gone[k].global_name by {
        crate::list::filter_members(was.globals, other_global(o.global_name), g);
    }
    if end.lock is Some {
        assert forall|s: LockSurface| #[trigger] end.lock->0.surfaces.contains(s) implies s.output_name@ != gone[k].name@ by {
            crate::list::filter_members(was.lock->0.surfaces, off_output(o.name@), s);
        }
    }
}

/// A lock surface, as resizes see it.
#[verifier::ext_equal]
pub ghost struct LockSurfaceV {
    pub id: ObjectId,
    pub client: u32,
    pub surface: u64,
    pub output_name: Seq<char>,
    pub next_serial: u32,
    pub last_sent: u32,
    pub acked: u32,
    pub sent: Seq<Configure>,
    pub acked_size: (u32, u32),
    pub mapped: bool,
}

pub open spec fn surface_view(s: LockSurface) -> LockSurfaceV {
    LockSurfaceV {
        id: s.id,
        client: s.client,
        surface: s.surface,
        output_name: s.output_name@,
        next_serial: s.next_serial,
        last_sent: s.last_sent,
        acked: s.acked,
        sent: s.sent@,
        acked_size: s.acked_size,
        mapped: s.mapped,
    }
}

pub open spec fn surface_views(s: Seq<LockSurface>) -> Seq<LockSurfaceV> {
    Seq::new(s.len(), |i: int| surface_view(s[i]))
}

/// A surface after one more configure of that size.
pub open spec fn configured_to(s: LockSurfaceV, size: (u32, u32)) -> LockSurfaceV {
    LockSurfaceV {
        next_serial: serial_after(s.next_serial),
        last_sent: s.next_serial,
        sent: s.sent.push(Configure { serial: s.next_serial, w: size.0, h: size.1 }),
        ..s
    }
}

/// The surfaces after those on one output were configured.
pub open spec fn configured_on(s: Seq<LockSurfaceV>, name: Seq<char>, size: (u32, u32)) -> Seq<LockSurfaceV> {
    Seq::new(s.len(), |i: int| if s[i].output_name == name { configured_to(s[i], size) } else { s[i] })
}

/// What the clients of the surfaces on one output hear.
pub open spec fn configures(s: Seq<LockSurfaceV>, name: Seq<char>, size: (u32, u32)) -> Seq<Sent>
    decreases s.len(),
{
    if s.len() == 0 {
        Seq::empty()
    } else {
        let front = configures(s.drop_last(), name, size);
        let l = s.last();
        if l.output_name == name {
            front.push(
                sent(
                    l.client,
                    l.id,
                    Event::LockConfigure { serial: l.next_serial, width: size.0, height: size.1 },
                ),
            )
        } else {
            front
        }
    }
}

/// The size of an output by name.
pub open spec fn size_on(outs: Seq<Output>, name: Seq<char>) -> (u32, u32) {
    let r = output_rect_spec(outs, (1, 1), name);
    ((r.x2 - r.x1) as u32, (r.y2 - r.y1) as u32)
}

/// The lock surfaces after the first `n` outputs were announced in order, and what was said.
pub open spec fn resized(s: Seq<LockSurfaceV>, outs: Seq<Output>, n: nat) -> (Seq<LockSurfaceV>, Seq<Sent>)
    decreases n,
{
    if n == 0 {
        (s, Seq::empty())
    } else {
        let (was, said) = resized(s, outs, (n - 1) as nat);
        let name = outs[n - 1].name@;
        let size = size_on(outs, name);
        (configured_on(was, name, size), said + configures(was, name, size))
    }
}

proof fn configures_are_the_same(s: Seq<LockSurface>, name: Seq<char>, size: (u32, u32))
    ensures
        configures_on(s, name, size.0, size.1) == configures(surface_views(s), name, size),
    decreases s.len(),
{
    if s.len() > 0 {
        configures_are_the_same(s.drop_last(), name, size);
        assert(surface_views(s).drop_last() =~= surface_views(s.drop_last()));
        assert(surface_views(s).last() == surface_view(s.last()));
    }
}

/// With every output under its own name, a lock surface on one of them is configured exactly
/// once, to the size of that output; one on none of them not at all.
pub proof fn lock_surfaces_are_configured_once(s: Seq<LockSurfaceV>, outs: Seq<Output>, i: int)
    requires
        0 <= i < s.len(),
        forall|j: int, k: int| 0 <= j < k < outs.len() ==> (#[trigger] outs[j]).name@ != (#[trigger] outs[k]).name@,
    ensures
        ({
            let end = resized(s, outs, outs.len()).0;
            &&& end.len() == s.len()
            &&& (exists|k: int| 0 <= k < outs.len() && (#[trigger] outs[k]).name@ == s[i].output_name) ==> end[i]
                == configured_to(s[i], size_on(outs, s[i].output_name))
            &&& !(exists|k: int| 0 <= k < outs.len() && (#[trigger] outs[k]).name@ == s[i].output_name) ==> end[i]
                == s[i]
        }),
{
    configured_once_among(s, outs, i, outs.len());
}

proof fn configured_once_among(s: Seq<LockSurfaceV>, outs: Seq<Output>, i: int, n: nat)
    requires
        0 <= i < s.len(),
        n <= outs.len(),
        forall|j: int, k: int| 0 <= j < k < outs.len() ==> (#[trigger] outs[j]).name@ != (#[trigger] outs[k]).name@,
    ensures
        ({
            let end = resized(s, outs, n).0;
            &&& end.len() == s.len()
            &&& end[i] == (if exists|k: int| 0 <= k < n && (#[trigger] outs[k]).name@ == s[i].output_name {
                configured_to(s[i], size_on(outs, s[i].output_name))
            } else {
                s[i]
            })
        }),
    decreases n,
{
    if n > 0 {
        configured_once_among(s, outs, i, (n - 1) as nat);
        let was = resized(s, outs, (n - 1) as nat).0;
        assert(was[i].output_name == s[i].output_name);
        if outs[n - 1].name@ == s[i].output_name {
            assert(forall|k: int| 0 <= k < n - 1 ==> (#[trigger] outs[k]).name@ != s[i].output_name);
        }
    }
}

/// What is pinned to a slot: the layer surfaces in the arrangement, in its order.
pub open spec fn pins_spec(list: Seq<LayerSurface>) -> Seq<LayerPin>
    decreases list.len(),
{
    if list.len() == 0 {
        Seq::empty()
    } else {
        let front = pins_spec(list.drop_last());
        let l = list.last();
        if l.linked {
            front.push(pin_of(l))
        } else {
            front
        }
    }
}

pub fn pins_of(list: &Vec<LayerSurface>) -> (r: Vec<LayerPin>)
    ensures
        r@ == pins_spec(list@),
{
    let mut pins: Vec<LayerPin> = Vec::new();
    for i in 0..list.len()
        invariant
            pins@ == pins_spec(list@.take(i as int)),
    {
        assert(list@.take(i + 1).drop_last() =~= list@.take(i as int));
        if list[i].linked {
            pins.push(
                LayerPin { id: list[i].uid, output: list[i].output, shown: list[i].shows && !list[i].destroyed },
            );
        }
    }
    assert(list@.take(list@.len() as int) =~= list@);
    pins
}

pub open spec fn moves_surface(uid: u64) -> spec_fn(LayerMove) -> bool {
    |m: LayerMove|
        match m {
            LayerMove::Close { id, .. } => id == uid,
            LayerMove::Keep { id, .. } => id == uid,
        }
}

/// What is to be done with a surface, if anything.
pub open spec fn move_of(moves: Seq<LayerMove>, uid: u64) -> Option<LayerMove> {
    match first_slot(moves, moves_surface(uid)) {
        Some(k) => Some(moves[k]),
        None => None,
    }
}

/// A surface after its move: closed and out of the arrangement, or in its output's new slot.
pub open spec fn moved(l: LayerSurface, m: Option<LayerMove>) -> LayerSurface {
    match m {
        None => l,
        Some(LayerMove::Close { .. }) => LayerSurface { closed: true, linked: false, ..l },
        Some(LayerMove::Keep { slot, .. }) => LayerSurface { output: slot, ..l },
    }
}

pub open spec fn moved_all(list: Seq<LayerSurface>, moves: Seq<LayerMove>) -> Seq<LayerSurface> {
    Seq::new(list.len(), |i: int| moved(list[i], move_of(moves, list[i].uid)))
}

/// What a move leaves to do beside the arrangement: a closed surface left its dead output by
/// name, where that is known, and its popups go; one that moved along learns its screen anew.
pub open spec fn move_effects(l: LayerSurface, m: Option<LayerMove>) -> Effects {
    match m {
        None => nothing(),
        Some(LayerMove::Close { named, .. }) => Effects {
            left_dead: l.linked && !l.destroyed && named,
            dismiss: true,
            ..nothing()
        },
        Some(LayerMove::Keep { announce, .. }) => Effects {
            output: if announce { Some(true) } else { None },
            ..nothing()
        },
    }
}

/// What the clients hear of the moves of the first `n` surfaces: each that closes, once.
pub open spec fn move_events(list: Seq<LayerSurface>, moves: Seq<LayerMove>, n: nat) -> Seq<Sent>
    decreases n,
{
    if n == 0 || n > list.len() {
        Seq::empty()
    } else {
        let front = move_events(list, moves, (n - 1) as nat);
        let l = list[n - 1];
        if move_of(moves, l.uid) matches Some(LayerMove::Close { .. }) && !l.closed {
            front.push(sent(l.client, l.id, Event::LayerClosed))
        } else {
            front
        }
    }
}

/// The whole glass.
pub open spec fn glass(outs: Seq<Output>) -> Rect {
    Rect::sized_saturating_spec(
        0,
        0,
        at_least_one(farthest(outs, right_edge(), 1, outs.len())),
        at_least_one(farthest(outs, bottom_edge(), 1, outs.len())),
    )
}

pub open spec fn at_least_one(v: int) -> i32 {
    if v < 1 { 1 } else { v as i32 }
}

/// The rect of each slot: that of its output, and without outputs one for the whole glass.
pub open spec fn slot_rects(outs: Seq<Output>) -> Seq<Rect> {
    if outs.len() == 0 { seq![glass(outs)] } else { Seq::new(outs.len(), |i: int| outs[i].rect_spec()) }
}

fn whole_glass(outs: &Vec<Output>) -> (r: Rect)
    requires
        sizes_fit(outs@),
    ensures
        r == glass(outs@),
{
    let (w, h) = union_extent(outs, 1);
    let w: i32 = if w < 1 { 1 } else { w };
    let h: i32 = if h < 1 { 1 } else { h };
    Rect::new_sized_saturating(0, 0, w, h)
}

fn rects_of_slots(outs: &Vec<Output>) -> (r: Vec<Rect>)
    requires
        sizes_fit(outs@),
    ensures
        r@ == slot_rects(outs@),
{
    let mut rects: Vec<Rect> = Vec::new();
    if outs.len() == 0 {
        rects.push(whole_glass(outs));
        assert(rects@ =~= slot_rects(outs@));
        return rects;
    }
    for i in 0..outs.len()
        invariant
            sizes_fit(outs@),
            rects@.len() == i,
            forall|j: int| 0 <= j < i ==> #[trigger] rects@[j] == outs@[j].rect_spec(),
    {
        rects.push(outs[i].rect());
    }
    assert(rects@ =~= slot_rects(outs@));
    rects
}

/// Gives the layer surfaces the outputs as they now stand: the rect of each slot, all of it
/// free until the next arrangement.
pub fn seat_layers(outs: &Vec<Output>, layers: &mut Layers)
    requires
        sizes_fit(outs@),
    ensures
        final(layers).rects@ == slot_rects(outs@),
        final(layers).usable@ == slot_rects(outs@),
        final(layers).extent == glass(outs@),
        *final(layers) == (Layers {
            rects: final(layers).rects,
            usable: final(layers).usable,
            extent: final(layers).extent,
            ..*old(layers)
        }),
{
    layers.rects = rects_of_slots(outs);
    layers.usable = rects_of_slots(outs);
    layers.extent = whole_glass(outs);
}

/// Hands each output the tiling area that the arranger left over on its slot.
pub fn share_usable(layers: &Layers, outs: &mut Vec<Output>)
    requires
        old(outs)@.len() <= layers.usable@.len(),
    ensures
        final(outs)@ == Seq::new(
            old(outs)@.len(),
            |i: int| Output { usable: layers.usable@[i], ..old(outs)@[i] },
        ),
{
    let n: usize = outs.len();
    let ghost all = outs@;
    for i in 0..n
        invariant
            n == all.len(),
            n == outs@.len(),
            n <= layers.usable@.len(),
            forall|j: int| 0 <= j < i ==> outs@[j] == (Output { usable: layers.usable@[j], ..all[j] }),
            forall|j: int| i <= j < n ==> outs@[j] == all[j],
    {
        outs[i].usable = layers.usable[i];
    }
    assert(outs@ =~= Seq::new(all.len(), |i: int| Output { usable: layers.usable@[i], ..all[i] }));
}

/// The tiling area of each slot: that of its output, and without outputs the one left over
/// so far.
pub open spec fn slot_areas(outs: Seq<Output>, layers: Layers) -> Seq<Rect> {
    if outs.len() == 0 { seq![layers.usable@[0]] } else { Seq::new(outs.len(), |i: int| outs[i].usable) }
}

fn areas_of_slots(outs: &Vec<Output>, layers: &Layers) -> (r: Vec<Rect>)
    requires
        layers.wf(),
    ensures
        r@ == slot_areas(outs@, *layers),
{
    let mut areas: Vec<Rect> = Vec::new();
    if outs.len() == 0 {
        areas.push(layers.usable[0]);
        assert(areas@ =~= slot_areas(outs@, *layers));
        return areas;
    }
    for i in 0..outs.len()
        invariant
            areas@.len() == i,
            forall|j: int| 0 <= j < i ==> #[trigger] areas@[j] == outs@[j].usable,
    {
        areas.push(outs[i].usable);
    }
    assert(areas@ =~= slot_areas(outs@, *layers));
    areas
}

/// Arranges the layer surfaces on the outputs as they stand, and hands each output what is
/// left over of it. `true` when a tiling area changed: then the windows are laid out again.
pub fn arrange_outputs(outs: &mut Vec<Output>, layers: &mut Layers) -> (r: bool)
    requires
        sizes_fit(old(outs)@),
        old(layers).wf(),
        list_fits(slot_rects(old(outs)@), old(layers).list@),
    ensures
        final(layers).wf(),
        final(layers).rects@ == slot_rects(old(outs)@),
        final(layers).extent == glass(old(outs)@),
        arranged_on(slot_rects(old(outs)@), old(layers).list@, *final(layers)),
        final(layers).queue@ == old(layers).queue@ + newly_queued(old(layers).list@, old(layers).list@.len()),
        final(outs)@ == Seq::new(
            old(outs)@.len(),
            |i: int| Output { usable: final(layers).usable@[i], ..old(outs)@[i] },
        ),
        r == (exists|k: int|
            0 <= k < slot_rects(old(outs)@).len() && #[trigger] final(layers).usable@[k] != slot_areas(
                old(outs)@,
                *old(layers),
            )[k]),
{
    let areas: Vec<Rect> = areas_of_slots(outs, layers);
    seat_layers(outs, layers);
    layers.usable = areas;
    let ghost seated = *layers;
    let changed: bool = arrange(layers);
    assert(arranged(seated, seated.list@, *layers));
    share_usable(layers, outs);
    changed
}

/// The lock surfaces follow the outputs: one configure for those on each, in output order.
fn resize_lock(outs: &Vec<Output>, lock: &mut LockSlot, out: &mut Out)
    requires
        sizes_fit(outs@),
    ensures
        lock_follows(*old(lock), *final(lock), outs@),
        final(out).sent@ == old(out).sent@ + lock_configures(*old(lock), outs@),
        old(lock).wf() ==> final(lock).wf(),
{
    let ghost start = *lock;
    let ghost had = out.sent@;
    let ghost first: Seq<LockSurfaceV> = surface_views(start.lock->0.surfaces@);
    proof {
        assert(had =~= had + Seq::<Sent>::empty());
    }
    for i in 0..outs.len()
        invariant
            sizes_fit(outs@),
            start == *old(lock),
            start.lock is Some ==> first == surface_views(start.lock->0.surfaces@),
            start.lock is None ==> *lock == start && out.sent@ == had,
            start.lock is Some ==> {
                &&& lock.lock is Some
                &&& lock.lock->0 == (SessionLock { surfaces: lock.lock->0.surfaces, ..start.lock->0 })
                &&& surface_views(lock.lock->0.surfaces@) == resized(first, outs@, i as nat).0
                &&& out.sent@ == had + resized(first, outs@, i as nat).1
            },
            old(lock).wf() ==> lock.wf(),
    {
        let ghost slot = *lock;
        let ghost said = out.sent@;
        let name: &str = outs[i].name.as_str();
        let r: Rect = output_rect(outs, (1, 1), name);
        let size: (u32, u32) = (r.width() as u32, r.height() as u32);
        assert(size == size_on(outs@, name@));
        session_lock::output_resized(lock, out, name, size);
        proof {
            if start.lock is Some {
                let a = slot.lock->0.surfaces@;
                let b = lock.lock->0.surfaces@;
                configures_are_the_same(a, name@, size);
                assert(surface_views(b) =~= configured_on(surface_views(a), name@, size)) by {
                    assert forall|j: int| 0 <= j < b.len() implies #[trigger] surface_views(b)[j] == configured_on(
                        surface_views(a),
                        name@,
                        size,
                    )[j] by {
                        assert(reconfigured(a, b, name@, size.0, size.1));
                        assert(surface_view(b[j]) =~= (if a[j].output_name@ == name@ {
                            configured_to(surface_view(a[j]), size)
                        } else {
                            surface_view(a[j])
                        }));
                    }
                }
                assert(out.sent@ =~= had + resized(first, outs@, (i + 1) as nat).1);
            }
        }
    }
}

/// `b` is `a` with its surfaces told the sizes of the outputs.
pub open spec fn lock_follows(a: LockSlot, b: LockSlot, outs: Seq<Output>) -> bool {
    match a.lock {
        None => b == a,
        Some(l) => {
            &&& b.lock is Some
            &&& surface_views(b.lock->0.surfaces@) == resized(surface_views(l.surfaces@), outs, outs.len()).0
            &&& b.lock->0 == (SessionLock { surfaces: b.lock->0.surfaces, ..l })
        },
    }
}

/// The configures that the lock surfaces are sent.
pub open spec fn lock_configures(a: LockSlot, outs: Seq<Output>) -> Seq<Sent> {
    match a.lock {
        None => Seq::empty(),
        Some(l) => resized(surface_views(l.surfaces@), outs, outs.len()).1,
    }
}

fn find_move(moves: &Vec<LayerMove>, uid: u64) -> (r: Option<LayerMove>)
    ensures
        r == move_of(moves@, uid),
{
    match find(
        moves,
        |m: &LayerMove| -> (b: bool) ensures b == moves_surface(uid)(*m) { is_move_of(m, uid) },
        Ghost(moves_surface(uid)),
    ) {
        Some(k) => Some(moves[k]),
        None => None,
    }
}

fn is_move_of(m: &LayerMove, uid: u64) -> (r: bool)
    ensures
        r == moves_surface(uid)(*m),
{
    match m {
        LayerMove::Close { id, .. } => *id == uid,
        LayerMove::Keep { id, .. } => *id == uid,
    }
}

/// Closes the surfaces whose output left, and moves the others along with theirs.
fn move_layers(moves: &Vec<LayerMove>, list: &mut Vec<LayerSurface>, out: &mut Out) -> (r: Vec<Effects>)
    requires
        all_wf(old(list)@),
    ensures
        all_wf(final(list)@),
        final(list)@ == moved_all(old(list)@, moves@),
        final(out).sent@ == old(out).sent@ + move_events(old(list)@, moves@, old(list)@.len()),
        r@.len() == old(list)@.len(),
        forall|i: int|
            0 <= i < r@.len() ==> #[trigger] r@[i] == move_effects(
                old(list)@[i],
                move_of(moves@, old(list)@[i].uid),
            ),
{
    let n: usize = list.len();
    let ghost all = list@;
    let ghost had = out.sent@;
    let mut fxs: Vec<Effects> = Vec::new();
    assert(had =~= had + move_events(all, moves@, 0));
    for i in 0..n
        invariant
            n == all.len(),
            all == old(list)@,
            n == list@.len(),
            all_wf(list@),
            fxs@.len() == i,
            forall|j: int| 0 <= j < i ==> #[trigger] list@[j] == moved(all[j], move_of(moves@, all[j].uid)),
            forall|j: int| i <= j < n ==> list@[j] == all[j],
            forall|j: int| 0 <= j < i ==> #[trigger] fxs@[j] == move_effects(all[j], move_of(moves@, all[j].uid)),
            out.sent@ == had + move_events(all, moves@, i as nat),
    {
        let ghost was = list@;
        assert(was[i as int].wf());
        let mut fx: Effects = Effects {
            rearranged: false,
            relayout: false,
            output: None,
            left_dead: false,
            dismiss: false,
        };
        match find_move(moves, list[i].uid) {
            None => {},
            Some(LayerMove::Close { named, .. }) => {
                fx.left_dead = list[i].linked && !list[i].destroyed && named;
                fx.dismiss = true;
                list[i].send_closed(out);
                list[i].linked = false;
            },
            Some(LayerMove::Keep { slot, announce, .. }) => {
                if announce {
                    fx.output = Some(true);
                }
                list[i].output = slot;
            },
        }
        fxs.push(fx);
        assert(forall|j: int| 0 <= j < n && j != i ==> list@[j] == was[j]);
        assert(list@[i as int].wf());
        assert(out.sent@ =~= had + move_events(all, moves@, (i + 1) as nat));
    }
    assert(list@ =~= moved_all(all, moves@));
    fxs
}

/// After the row was laid out again: the lock surfaces are told the sizes of their outputs,
/// in output order; layer surfaces whose output left are closed, and the others get their
/// output's new slot; then everything is arranged on the new glass. The result says what
/// each layer surface has left to do. Pointer focus is then looked up again, the keyboard
/// lock applied and every visible workspace laid out.
pub fn rearm(outs: &Vec<Output>, moves: &Vec<LayerMove>, layers: &mut Layers, lock: &mut LockSlot, out: &mut Out) -> (r:
    Vec<Effects>)
    requires
        sizes_fit(outs@),
        old(layers).wf(),
        list_fits(slot_rects(outs@), moved_all(old(layers).list@, moves@)),
    ensures
        final(layers).wf(),
        final(layers).rects@ == slot_rects(outs@),
        final(layers).extent == glass(outs@),
        arranged_on(slot_rects(outs@), moved_all(old(layers).list@, moves@), *final(layers)),
        final(layers).queue@ == old(layers).queue@ + newly_queued(
            moved_all(old(layers).list@, moves@),
            old(layers).list@.len(),
        ),
        lock_follows(*old(lock), *final(lock), outs@),
        old(lock).wf() ==> final(lock).wf(),
        final(out).sent@ == old(out).sent@ + lock_configures(*old(lock), outs@) + move_events(
            old(layers).list@,
            moves@,
            old(layers).list@.len(),
        ),
        r@.len() == old(layers).list@.len(),
        forall|i: int|
            0 <= i < r@.len() ==> #[trigger] r@[i] == move_effects(
                old(layers).list@[i],
                move_of(moves@, old(layers).list@[i].uid),
            ),
{
    resize_lock(outs, lock, out);
    let fxs: Vec<Effects> = move_layers(moves, &mut layers.list, out);
    seat_layers(outs, layers);
    let ghost seated = *layers;
    arrange(layers);
    assert(arranged(seated, seated.list@, *layers));
    fxs
}

/// The outputs once the row is tiled anew and each shows a workspace bound to it.
pub open spec fn new_row(outs: Seq<Output>, before: Seq<u64>, bound: Seq<usize>) -> Seq<Output> {
    let row = tiled_all(outs);
    settle_spec(row, rebound(before, row, bound), row.len()).0
}

/// What the layer surfaces have to do then, in the order of the arrangement.
pub open spec fn new_moves(outs: Seq<Output>, before: Seq<u64>, list: Seq<LayerSurface>) -> Seq<LayerMove> {
    let pins = pins_spec(list);
    Seq::new(pins.len(), |i: int| layer_move_spec(before, tiled_all(outs), pins[i]))
}

/// Heads arrived, after others may have left: the row is laid out again, and lock surfaces,
/// layer surfaces and tiling areas follow. `before` holds the identities that the old slots
/// had. Returns the head set to commit, and what each layer surface has left to do.
pub fn relight(
    outs: &mut Vec<Output>,
    arrived: Vec<Output>,
    before: &Vec<u64>,
    l: &mut Layout,
    layers: &mut Layers,
    lock: &mut LockSlot,
    out: &mut Out,
) -> (r: (Vec<(u32, u32)>, Vec<Effects>))
    requires
        sizes_fit(old(outs)@ + arrived@),
        span(old(outs)@ + arrived@, (old(outs)@ + arrived@).len()) <= i32::MAX,
        old(l).bound@.len() + old(outs)@.len() + arrived@.len() <= usize::MAX,
        old(layers).wf(),
        list_fits(
            slot_rects(new_row(old(outs)@ + arrived@, before@, old(l).bound@)),
            moved_all(old(layers).list@, new_moves(old(outs)@ + arrived@, before@, old(layers).list@)),
        ),
    ensures
        ({
            let all = old(outs)@ + arrived@;
            let row = new_row(all, before@, old(l).bound@);
            let moves = new_moves(all, before@, old(layers).list@);
            let list = moved_all(old(layers).list@, moves);
            &&& (r.0)@ == head_set(all)
            &&& relaid_row(all, before@, *old(l), row, *final(l))
            &&& final(outs)@ == Seq::new(row.len(), |i: int| Output { usable: final(layers).usable@[i], ..row[i] })
            &&& final(layers).wf()
            &&& final(layers).rects@ == slot_rects(row)
            &&& final(layers).extent == glass(row)
            &&& arranged_on(slot_rects(row), list, *final(layers))
            &&& final(layers).queue@ == old(layers).queue@ + newly_queued(list, list.len())
            &&& lock_follows(*old(lock), *final(lock), row)
            &&& old(lock).wf() ==> final(lock).wf()
            &&& final(out).sent@ == old(out).sent@ + lock_configures(*old(lock), row) + move_events(
                old(layers).list@,
                moves,
                old(layers).list@.len(),
            )
            &&& (r.1)@ == Seq::new(
                list.len(),
                |i: int| move_effects(old(layers).list@[i], move_of(moves, old(layers).list@[i].uid)),
            )
        }),
{
    let ghost all = outs@ + arrived@;
    let ghost row = new_row(all, before@, l.bound@);
    let pins: Vec<LayerPin> = pins_of(&layers.list);
    let (set, moves) = replug(outs, arrived, before, l, &pins);
    proof {
        assert(outs@ == row);
        assert(moves@ =~= new_moves(all, before@, layers.list@));
        settle_keeps_rest(tiled_all(all), rebound(before@, tiled_all(all), old(l).bound@), all.len());
        assert forall|i: int| 0 <= i < row.len() implies (#[trigger] row[i]).width <= i32::MAX && row[i].height
            <= i32::MAX by {
            assert(row[i].width == all[i].width && row[i].height == all[i].height);
        }
    }
    let fxs: Vec<Effects> = rearm(outs, &moves, layers, lock, out);
    share_usable(layers, outs);
    assert(fxs@ =~= Seq::new(
        old(layers).list@.len(),
        |i: int| move_effects(old(layers).list@[i], move_of(moves@, old(layers).list@[i].uid)),
    ));
    (set, fxs)
}

pub open spec fn pin_of(l: LayerSurface) -> LayerPin {
    LayerPin { id: l.uid, output: l.output, shown: l.shows && !l.destroyed }
}

proof fn pins_are_of_surfaces(list: Seq<LayerSurface>, j: int) -> (i: int)
    requires
        0 <= j < pins_spec(list).len(),
    ensures
        0 <= i < list.len(),
        list[i].linked,
        pins_spec(list)[j] == pin_of(list[i]),
    decreases list.len(),
{
    let rest = list.drop_last();
    if j < pins_spec(rest).len() {
        pins_are_of_surfaces(rest, j)
    } else {
        list.len() - 1
    }
}

proof fn linked_surfaces_are_pinned(list: Seq<LayerSurface>, i: int) -> (j: int)
    requires
        0 <= i < list.len(),
        list[i].linked,
    ensures
        0 <= j < pins_spec(list).len(),
        pins_spec(list)[j] == pin_of(list[i]),
    decreases list.len(),
{
    let rest = list.drop_last();
    if i < rest.len() {
        linked_surfaces_are_pinned(rest, i)
    } else {
        pins_spec(rest).len() as int
    }
}

/// Layer surfaces stay on their output: one in the arrangement follows it to the slot it has
/// now, and is closed, never moved elsewhere, when it left.
pub proof fn layer_surfaces_stay_on_their_output(
    outs: Seq<Output>,
    before: Seq<u64>,
    list: Seq<LayerSurface>,
    i: int,
)
    requires
        0 <= i < list.len(),
        list[i].linked,
        forall|a: int, b: int| 0 <= a < b < list.len() ==> (#[trigger] list[a]).uid != (#[trigger] list[b]).uid,
    ensures
        ({
            let l = moved_all(list, new_moves(outs, before, list))[i];
            match survivor_spec(before, tiled_all(outs), list[i].output as int) {
                None => l == (LayerSurface { closed: true, linked: false, ..list[i] }),
                Some(k) => {
                    &&& l == (LayerSurface { output: k as usize, ..list[i] })
                    &&& 0 <= k < outs.len()
                    &&& outs[k].uid == before[list[i].output as int]
                },
            }
        }),
{
    let row = tiled_all(outs);
    let pins = pins_spec(list);
    let moves = new_moves(outs, before, list);
    let uid = list[i].uid;
    let j = linked_surfaces_are_pinned(list, i);
    assert(moves_surface(uid)(moves[j]));
    crate::output::first_slot_is_lowest(moves, moves_surface(uid));
    let f = first_slot(moves, moves_surface(uid))->0;
    let a = pins_are_of_surfaces(list, f);
    assert(moves[f] == layer_move_spec(before, row, pins[f]));
    assert(list[a].uid == uid);
    assert(a == i);
    assert(moves[f] == layer_move_spec(before, row, pin_of(list[i])));
    let slot = list[i].output as int;
    if 0 <= slot < before.len() {
        crate::output::first_slot_is_lowest(row, crate::output::topology::has_uid(before[slot]));
    }
}

/// After a rearrangement each surface is where its move says: a closed one is out of the
/// arrangement for good, a kept one on its output's new slot, and every output keeps what
/// the arranger left over.
pub proof fn rearmed_surfaces_are_in_place(
    before: Seq<LayerSurface>,
    outs: Seq<Output>,
    moves: Seq<LayerMove>,
    after: Layers,
    i: int,
)
    requires
        0 <= i < before.len(),
        arranged_on(slot_rects(outs), moved_all(before, moves), after),
    ensures
        move_of(moves, before[i].uid) matches Some(LayerMove::Close { .. }) ==> after.list@[i].closed
            && !after.list@[i].linked,
        move_of(moves, before[i].uid) matches Some(LayerMove::Keep { slot, .. }) ==> after.list@[i].output == slot
            && after.list@[i].closed == before[i].closed,
        move_of(moves, before[i].uid) is None ==> after.list@[i].output == before[i].output,
        forall|k: int|
            0 <= k < outs.len() ==> bounds(#[trigger] after.usable@[k]) == usable_area(
                moved_all(before, moves),
                k,
                bounds(outs[k].rect_spec()),
            ),
{
    let list = moved_all(before, moves);
    let m = after.list@[i];
    assert(m == (LayerSurface { rect: m.rect, scheduled: list[i].scheduled || list[i].linked, ..list[i] }));
    assert forall|k: int| 0 <= k < outs.len() implies bounds(#[trigger] after.usable@[k]) == usable_area(
        list,
        k,
        bounds(outs[k].rect_spec()),
    ) by {
        assert(slot_rects(outs)[k] == outs[k].rect_spec());
    }
}

} // verus!
