//! What clients are told: of windows, of idling, of copies, of the pointer.
use crate::list::filter_members;
use crate::protocol::events::{Event, Sent};
use crate::protocol::foreign_toplevel::{
    announcement, announcements, announcing, bind_events, handles_of, introduced, move_burst, of_window, state_burst, told_each,
    told_handles, FtlHandle, FtlManager, OutputBind, WindowFacts,
};
use crate::protocol::idle::{fallen, falls, idles, resumes, IdleNotification};
use crate::protocol::pointer_constraints::{activity, Kind};
use crate::protocol::screencopy::{asked, frame_made, reported, suits, Region, ScreencopyFrame, ScreencopyManager, WL_SHM_XRGB8888};
use crate::protocol::ObjectId;
use crate::output::Output;
use crate::rect::Rect;
use vstd::prelude::*;

verus! {

/// A list holds another as one run, from `p` on.
pub open spec fn holds_run(all: Seq<Sent>, p: int, part: Seq<Sent>) -> bool {
    0 <= p && p + part.len() <= all.len() && all.subrange(p, p + part.len()) == part
}

proof fn run_inside(a: Seq<Sent>, b: Seq<Sent>, c: Seq<Sent>, p: int, part: Seq<Sent>)
    requires
        holds_run(b, p, part),
    ensures
        holds_run(a + b + c, a.len() + p, part),
{
    let all = a + b + c;
    let q = a.len() + p;
    assert(all.subrange(q, q + part.len()) =~= b.subrange(p, p + part.len()));
}

/// A window is announced by a new handle, and all that the handle says of it: its
/// application, its title, the outputs it is on, its state, and last that this was all.
pub proof fn announcements_say_everything(
    client: u32,
    version: u32,
    manager: ObjectId,
    id: ObjectId,
    w: WindowFacts,
    binds: Seq<OutputBind>,
    outs: Seq<Output>,
    k: int,
)
    ensures
        ({
            let a = announcement(client, version, manager, id, w, binds, outs);
            let says = |e: Event| exists|i: int| 0 <= i < a.len() && #[trigger] a[i] == (Sent { client, object: id, event: e });
            &&& a[0] == (Sent { client, object: manager, event: Event::FtlToplevel { id } })
            &&& forall|i: int| 1 <= i < a.len() ==> (#[trigger] a[i]).client == client && a[i].object == id
            &&& a.last() == (Sent { client, object: id, event: Event::FtlDone })
            &&& says(Event::FtlAppId { app_id: w.app_id })
            &&& says(Event::FtlTitle { title: w.title })
            &&& says(Event::FtlState { activated: w.focused, fullscreen: w.fullscreen && version >= 2 })
            &&& w.slot < outs.len() && 0 <= k < binds.len() && binds[k].client == client && binds[k].name@ == outs[w.slot as int].name@
                ==> says(Event::FtlOutputEnter { output: binds[k].id })
        }),
{
    let h = FtlHandle { id, client, version, window: Some(w.uid), out_slot: w.slot };
    let a = announcement(client, version, manager, id, w, binds, outs);
    let mid = if w.slot < outs.len() {
        bind_events(h, binds, binds.len(), outs[w.slot as int].name@, true)
    } else {
        Seq::empty()
    };
    if w.slot < outs.len() {
        binds_hear(h, binds, binds.len(), outs[w.slot as int].name@, true, k);
    }
    assert(a.len() == 5 + mid.len());
    assert(a[1] == (Sent { client, object: id, event: Event::FtlAppId { app_id: w.app_id } }));
    assert(a[2] == (Sent { client, object: id, event: Event::FtlTitle { title: w.title } }));
    assert(forall|i: int| 0 <= i < mid.len() ==> a[3 + i] == #[trigger] mid[i]);
    assert forall|i: int| 3 <= i < 3 + mid.len() implies (#[trigger] a[i]).client == client && a[i].object == id by {
        assert(a[3 + (i - 3)] == mid[i - 3]);
    }
    assert(a[3 + mid.len() as int].event == (Event::FtlState { activated: w.focused, fullscreen: w.fullscreen && version >= 2 }));
    if w.slot < outs.len() && 0 <= k < binds.len() && binds[k].client == client && binds[k].name@ == outs[w.slot as int].name@ {
        let e = Sent { client, object: id, event: Event::FtlOutputEnter { output: binds[k].id } };
        let i = choose|i: int| 0 <= i < mid.len() && mid[i] == e;
        assert(a[3 + i] == e);
    }
}

proof fn binds_hear(h: FtlHandle, binds: Seq<OutputBind>, n: nat, name: Seq<char>, enter: bool, k: int)
    requires
        n <= binds.len(),
    ensures
        ({
            let e = bind_events(h, binds, n, name, enter);
            &&& forall|i: int|
                0 <= i < e.len() ==> (#[trigger] e[i]).client == h.client && e[i].object == h.id && (if enter {
                    e[i].event is FtlOutputEnter
                } else {
                    e[i].event is FtlOutputLeave
                })
            &&& 0 <= k < n && binds[k].client == h.client && binds[k].name@ == name ==> e.contains(
                Sent {
                    client: h.client,
                    object: h.id,
                    event: if enter {
                        Event::FtlOutputEnter { output: binds[k].id }
                    } else {
                        Event::FtlOutputLeave { output: binds[k].id }
                    },
                },
            )
        }),
    decreases n,
{
    if n > 0 {
        binds_hear(h, binds, (n - 1) as nat, name, enter, k);
        let front = bind_events(h, binds, (n - 1) as nat, name, enter);
        let all = bind_events(h, binds, n, name, enter);
        if 0 <= k < n && binds[k].client == h.client && binds[k].name@ == name {
            let x = Sent {
                client: h.client,
                object: h.id,
                event: if enter {
                    Event::FtlOutputEnter { output: binds[k].id }
                } else {
                    Event::FtlOutputLeave { output: binds[k].id }
                },
            };
            if k == n - 1 {
                assert(all.last() == x);
            } else {
                let i = choose|i: int| 0 <= i < front.len() && front[i] == x;
                assert(all[i] == x);
            }
        }
    }
}

/// A mapped window is announced by every manager that still announces, each by a handle of
/// its own that it keeps, and by no other.
pub proof fn live_managers_announce(
    managers: Seq<FtlManager>,
    b: FtlManager,
    w: WindowFacts,
    fresh: Seq<ObjectId>,
    binds: Seq<OutputBind>,
    outs: Seq<Output>,
    i: int,
)
    requires
        0 <= i < managers.len(),
        introduced(managers[i], b, w, fresh[announcing(managers, i as nat) as int]),
    ensures
        managers[i].stopped ==> b == managers[i],
        !managers[i].stopped ==> {
            let h = b.handles@.last();
            &&& b.handles@.drop_last() == managers[i].handles@
            &&& h.window == Some(w.uid) && h.client == managers[i].client && h.out_slot == w.slot
            &&& exists|p: int|
                #[trigger] holds_run(
                    announcements(managers, managers.len(), w, fresh, binds, outs),
                    p,
                    announcement(managers[i].client, managers[i].version, managers[i].id, h.id, w, binds, outs),
                )
        },
{
    if !managers[i].stopped {
        let id = fresh[announcing(managers, i as nat) as int];
        assert(b.handles@.drop_last() =~= managers[i].handles@);
        assert(b.handles@.last().id == id);
        let p = announced_at(managers, managers.len(), w, fresh, binds, outs, i);
        assert(holds_run(
            announcements(managers, managers.len(), w, fresh, binds, outs),
            p,
            announcement(managers[i].client, managers[i].version, managers[i].id, id, w, binds, outs),
        ));
    }
}

proof fn announced_at(
    managers: Seq<FtlManager>,
    n: nat,
    w: WindowFacts,
    fresh: Seq<ObjectId>,
    binds: Seq<OutputBind>,
    outs: Seq<Output>,
    i: int,
) -> (p: int)
    requires
        0 <= i < n <= managers.len(),
        !managers[i].stopped,
    ensures
        holds_run(
            announcements(managers, n, w, fresh, binds, outs),
            p,
            announcement(
                managers[i].client,
                managers[i].version,
                managers[i].id,
                fresh[announcing(managers, i as nat) as int],
                w,
                binds,
                outs,
            ),
        ),
    decreases n,
{
    let front = announcements(managers, (n - 1) as nat, w, fresh, binds, outs);
    let m = managers[n - 1];
    let own = announcement(
        m.client,
        m.version,
        m.id,
        fresh[announcing(managers, (n - 1) as nat) as int],
        w,
        binds,
        outs,
    );
    let none = Seq::<Sent>::empty();
    assert(front + own + none =~= front + own);
    assert(none + front + own =~= front + own);
    if i == n - 1 {
        assert(own.subrange(0, own.len() as int) =~= own);
        run_inside(front, own, none, 0, own);
        front.len() as int
    } else {
        let p = announced_at(managers, (n - 1) as nat, w, fresh, binds, outs, i);
        if !m.stopped {
            run_inside(
                none,
                front,
                own,
                p,
                announcement(
                    managers[i].client,
                    managers[i].version,
                    managers[i].id,
                    fresh[announcing(managers, i as nat) as int],
                    w,
                    binds,
                    outs,
                ),
            );
        }
        p
    }
}

/// A change of a window is told to each handle of it, whichever manager has it.
pub proof fn every_handle_of_a_window_hears(
    managers: Seq<FtlManager>,
    window: u64,
    burst: spec_fn(FtlHandle) -> Seq<Sent>,
    i: int,
    j: int,
)
    requires
        0 <= i < managers.len(),
        0 <= j < managers[i].handles@.len(),
        managers[i].handles@[j].window == Some(window),
    ensures
        exists|p: int| #[trigger] holds_run(told_handles(managers, window, burst), p, burst(managers[i].handles@[j])),
{
    let hs = handles_of(managers, managers.len(), window);
    let h = managers[i].handles@[j];
    handles_found(managers, managers.len(), window, i, h);
    let k = choose|k: int| 0 <= k < hs.len() && hs[k] == h;
    let p = told_at(hs, hs.len(), burst, k);
    assert(holds_run(told_handles(managers, window, burst), p, burst(h)));
}

proof fn handles_found(managers: Seq<FtlManager>, n: nat, window: u64, i: int, h: FtlHandle)
    requires
        0 <= i < n <= managers.len(),
        managers[i].handles@.contains(h),
        h.window == Some(window),
    ensures
        handles_of(managers, n, window).contains(h),
    decreases n,
{
    let front = handles_of(managers, (n - 1) as nat, window);
    let own = managers[n - 1].handles@.filter(of_window(window));
    let all = handles_of(managers, n, window);
    assert(all == front + own);
    if i == n - 1 {
        filter_members(managers[i].handles@, of_window(window), h);
        let k = choose|k: int| 0 <= k < own.len() && own[k] == h;
        assert(all[front.len() + k] == h);
    } else {
        handles_found(managers, (n - 1) as nat, window, i, h);
        let k = choose|k: int| 0 <= k < front.len() && front[k] == h;
        assert(all[k] == h);
    }
}

proof fn told_at(hs: Seq<FtlHandle>, n: nat, burst: spec_fn(FtlHandle) -> Seq<Sent>, k: int) -> (p: int)
    requires
        0 <= k < n <= hs.len(),
    ensures
        holds_run(told_each(hs, n, burst), p, burst(hs[k])),
    decreases n,
{
    let front = told_each(hs, (n - 1) as nat, burst);
    let own = burst(hs[n - 1]);
    let none = Seq::<Sent>::empty();
    assert(front + own + none =~= front + own);
    assert(none + front + own =~= front + own);
    if k == n - 1 {
        assert(own.subrange(0, own.len() as int) =~= own);
        run_inside(front, own, none, 0, own);
        front.len() as int
    } else {
        let p = told_at(hs, (n - 1) as nat, burst, k);
        run_inside(none, front, own, p, burst(hs[k]));
        p
    }
}

/// A window that moves to another output leaves the old one and then enters the new one, on
/// each binding that its client has of them; one that stays says nothing.
pub proof fn moved_windows_leave_then_enter(h: FtlHandle, slot: usize, binds: Seq<OutputBind>, outs: Seq<Output>, a: int, b: int)
    requires
        h.out_slot < outs.len(),
        slot < outs.len(),
        0 <= a < binds.len() && binds[a].client == h.client && binds[a].name@ == outs[h.out_slot as int].name@,
        0 <= b < binds.len() && binds[b].client == h.client && binds[b].name@ == outs[slot as int].name@,
    ensures
        ({
            let m = move_burst(h, slot, binds, outs);
            &&& h.out_slot == slot ==> m.len() == 0
            &&& h.out_slot != slot ==> {
                &&& m.last() == (Sent { client: h.client, object: h.id, event: Event::FtlDone })
                &&& exists|i: int, j: int|
                    0 <= i < j < m.len() && #[trigger] m[i] == (Sent {
                        client: h.client,
                        object: h.id,
                        event: Event::FtlOutputLeave { output: binds[a].id },
                    }) && #[trigger] m[j] == (Sent {
                        client: h.client,
                        object: h.id,
                        event: Event::FtlOutputEnter { output: binds[b].id },
                    })
            }
        }),
{
    if h.out_slot != slot {
        binds_hear(h, binds, binds.len(), outs[h.out_slot as int].name@, false, a);
        binds_hear(h, binds, binds.len(), outs[slot as int].name@, true, b);
        let x = bind_events(h, binds, binds.len(), outs[h.out_slot as int].name@, false);
        let y = bind_events(h, binds, binds.len(), outs[slot as int].name@, true);
        let m = move_burst(h, slot, binds, outs);
        let e = Sent { client: h.client, object: h.id, event: Event::FtlOutputLeave { output: binds[a].id } };
        let f = Sent { client: h.client, object: h.id, event: Event::FtlOutputEnter { output: binds[b].id } };
        let i = choose|i: int| 0 <= i < x.len() && x[i] == e;
        let j = choose|j: int| 0 <= j < y.len() && y[j] == f;
        assert(m[i] == e);
        assert(m[x.len() + j] == f);
    }
}

/// A handle says that its window has the focus just when it has, and that it is fullscreen
/// only where its version knows of that.
pub proof fn states_are_told_as_they_are(h: FtlHandle, w: WindowFacts)
    ensures
        ({
            let s = state_burst(h, w);
            &&& s.len() == 2
            &&& s[0].client == h.client && s[0].object == h.id
            &&& s[0].event matches Event::FtlState { activated, fullscreen } && activated == w.focused && (fullscreen
                <==> w.fullscreen && h.version >= 2)
            &&& s[1] == (Sent { client: h.client, object: h.id, event: Event::FtlDone })
        }),
{
}

pub open spec fn ripe(idle_ms: u64) -> spec_fn(IdleNotification) -> bool {
    |n: IdleNotification| !n.idled && idle_ms >= n.timeout_ms
}

pub open spec fn asleep() -> spec_fn(IdleNotification) -> bool {
    |n: IdleNotification| n.idled
}

/// Once the seat was idle for that long, exactly those hear of it whose time has come and
/// who did not hear of it yet, and they are idled from then on; exactly those who are idled
/// hear that the user is back.
pub proof fn idlers_hear_when_their_time_comes(ns: Seq<IdleNotification>, idle_ms: u64)
    ensures
        idles(ns, idle_ms) == ns.filter(ripe(idle_ms)).map_values(
            |n: IdleNotification| Sent { client: n.client, object: n.id, event: Event::Idled },
        ),
        resumes(ns) == ns.filter(asleep()).map_values(
            |n: IdleNotification| Sent { client: n.client, object: n.id, event: Event::Resumed },
        ),
        forall|i: int|
            0 <= i < ns.len() ==> {
                let m = #[trigger] fallen(ns, idle_ms)[i];
                m.idled == (ns[i].idled || idle_ms >= ns[i].timeout_ms) && m.id == ns[i].id && m.client == ns[i].client
                    && m.timeout_ms == ns[i].timeout_ms
            },
    decreases ns.len(),
{
    reveal(Seq::filter);
    let f = |n: IdleNotification| Sent { client: n.client, object: n.id, event: Event::Idled };
    let g = |n: IdleNotification| Sent { client: n.client, object: n.id, event: Event::Resumed };
    if ns.len() > 0 {
        let rest = ns.drop_last();
        idlers_hear_when_their_time_comes(rest, idle_ms);
        if ripe(idle_ms)(ns.last()) {
            assert(ns.filter(ripe(idle_ms)).map_values(f) =~= rest.filter(ripe(idle_ms)).map_values(f).push(f(ns.last())));
        }
        if asleep()(ns.last()) {
            assert(ns.filter(asleep()).map_values(g) =~= rest.filter(asleep()).map_values(g).push(g(ns.last())));
        }
    } else {
        assert(ns.filter(ripe(idle_ms)).map_values(f) =~= Seq::empty());
        assert(ns.filter(asleep()).map_values(g) =~= Seq::empty());
    }
}

/// A constraint tells its client of its own kind, and whether it was turned on or off.
pub proof fn constraints_tell_of_their_kind(kind: Kind, active: bool)
    ensures
        activity(kind, active) is PointerLocked <==> kind is Lock && active,
        activity(kind, active) is PointerUnlocked <==> kind is Lock && !active,
        activity(kind, active) is PointerConfined <==> kind is Confine && active,
        activity(kind, active) is PointerUnconfined <==> kind is Confine && !active,
{
}

/// A copied frame covers just the pixels of the output that are in the region asked for, all
/// of them where none was, on that output, and nothing where the output is gone.
pub proof fn copies_cover_what_was_asked_for(
    m: ScreencopyManager,
    id: ObjectId,
    geo: Option<(usize, u32, u32)>,
    region: Option<Region>,
    overlay: bool,
    x: int,
    y: int,
)
    requires
        geo matches Some(g) ==> g.1 <= i32::MAX && g.2 <= i32::MAX,
        region matches Some(r) ==> i32::MIN <= r.x + r.w <= i32::MAX && i32::MIN <= r.y + r.h <= i32::MAX,
    ensures
        ({
            let f = frame_made(m, id, geo, region, overlay);
            let inside = f.rect.x1 <= x < f.rect.x2 && f.rect.y1 <= y < f.rect.y2;
            &&& geo matches Some((slot, ow, oh)) ==> {
                &&& f.slot == Some(slot)
                &&& inside <==> 0 <= x < ow && 0 <= y < oh && (region matches Some(r) ==> r.x <= x < r.x + r.w && r.y <= y < r.y
                    + r.h)
            }
            &&& geo is None ==> f.slot is None && !inside
            &&& f.id == id && f.client == m.client && !f.used && f.overlay_cursor == overlay
        }),
{
}

/// A new frame tells what buffer it takes: its size, rows of four bytes a pixel, the format;
/// a newer client hears that this was all. One without pixels fails at once.
pub proof fn frames_state_their_buffer(m: ScreencopyManager, id: ObjectId, geo: Option<(usize, u32, u32)>, region: Option<Region>)
    requires
        crate::protocol::screencopy::countable(geo, region),
        geo matches Some(g) ==> g.1 <= i32::MAX && g.2 <= i32::MAX,
    ensures
        ({
            let f = frame_made(m, id, geo, region, false);
            let s = crate::protocol::screencopy::introduced(m.client, m.version, id, geo, region);
            let some = f.rect.x1 < f.rect.x2 && f.rect.y1 < f.rect.y2;
            &&& forall|i: int| 0 <= i < s.len() ==> (#[trigger] s[i]).client == m.client && s[i].object == id
            &&& !some ==> s.len() == 1 && s[0].event is CopyFailed
            &&& some ==> {
                &&& s[0].event matches Event::CopyBuffer { format, width, height, stride } && format == WL_SHM_XRGB8888 && width
                    == f.rect.x2 - f.rect.x1 && height == f.rect.y2 - f.rect.y1 && stride == 4 * width
                &&& m.version >= 3 ==> s.len() == 2 && s[1].event is CopyBufferDone
                &&& m.version < 3 ==> s.len() == 1
            }
        }),
{
}

/// A finished copy says that it is upright, what changed where that was asked for, and when.
pub proof fn finished_copies_report(f: ScreencopyFrame, with_damage: bool, nsec: u64)
    requires
        f.rect.wf(),
    ensures
        ({
            let s = reported(f, with_damage, nsec);
            &&& s[0].event == (Event::CopyFlags { flags: 0 })
            &&& s.last().event is CopyReady
            &&& s.len() == (if with_damage { 3nat } else { 2nat })
            &&& with_damage ==> (s[1].event matches Event::CopyDamage { x, y, width, height } && x == 0 && y == 0 && width
                == f.rect.x2 - f.rect.x1 && height == f.rect.y2 - f.rect.y1)
            &&& forall|i: int| 0 <= i < s.len() ==> (#[trigger] s[i]).client == f.client && s[i].object == f.id
        }),
{
}

} // verus!
