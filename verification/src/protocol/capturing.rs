//! What becomes of a pending capture: which frames and pixels complete it, what is copied,
//! and what its client hears.
use crate::output::capture::{byte_col, byte_row, capture_slot_spec, crop_source, place_of_byte, window_byte};
use crate::output::scene::SurfaceNode;
use crate::output::tail::{serve_from, Served};
use crate::output::{first_slot_found, first_slot_is_lowest, named, Output};
use crate::protocol::events::{Event, Sent};
use crate::protocol::image_copy_capture::{
    awaits_output, awaits_surface, in_subs, in_tree, is_window, readiness, serving, slots_of, IccSession, LiveWindow, Resolved,
    SourceKind, Target,
};
use crate::protocol::shm::{BufferStorage, WlBuffer};
use crate::rect::Rect;
use vstd::prelude::*;

verus! {

/// A source stands for the output of its name, or the live window of its identity, with the
/// size that it has at the moment; a source of neither is gone.
pub proof fn sources_stand_for_what_is_there(kind: SourceKind, outs: Seq<Output>, windows: Seq<LiveWindow>, k: int)
    ensures
        match kind {
            SourceKind::Output(name) => {
                &&& 0 <= k < outs.len() && outs[k].name@ == name@ && (forall|j: int|
                    0 <= j < k ==> (#[trigger] outs[j]).name@ != name@) ==> kind.resolved(outs, windows) == Some(
                    Resolved { target: Target::Out(outs[k].index), w: outs[k].width, h: outs[k].height },
                )
                &&& (forall|j: int| 0 <= j < outs.len() ==> (#[trigger] outs[j]).name@ != name@) ==> kind.resolved(
                    outs,
                    windows,
                ) is None
            },
            SourceKind::Toplevel(Some(uid)) => {
                &&& 0 <= k < windows.len() && windows[k].uid == uid && (forall|j: int|
                    0 <= j < k ==> (#[trigger] windows[j]).uid != uid) ==> kind.resolved(outs, windows) == Some(
                    Resolved { target: Target::Win(uid), w: windows[k].w, h: windows[k].h },
                )
                &&& (forall|j: int| 0 <= j < windows.len() ==> (#[trigger] windows[j]).uid != uid) ==> kind.resolved(
                    outs,
                    windows,
                ) is None
            },
            SourceKind::Toplevel(None) => kind.resolved(outs, windows) is None,
        },
{
    match kind {
        SourceKind::Output(name) => {
            first_slot_is_lowest(outs, named(name@));
            if 0 <= k < outs.len() && outs[k].name@ == name@ && (forall|j: int|
                0 <= j < k ==> (#[trigger] outs[j]).name@ != name@) {
                assert forall|j: int| 0 <= j < k implies !named(name@)(#[trigger] outs[j]) by {}
                first_slot_found(outs, named(name@), k);
            }
        },
        SourceKind::Toplevel(Some(uid)) => {
            first_slot_is_lowest(windows, is_window(uid));
            if 0 <= k < windows.len() && windows[k].uid == uid && (forall|j: int|
                0 <= j < k ==> (#[trigger] windows[j]).uid != uid) {
                assert forall|j: int| 0 <= j < k implies !is_window(uid)(#[trigger] windows[j]) by {}
                first_slot_found(windows, is_window(uid), k);
            }
        },
        _ => {},
    }
}

/// A pending capture is copied exactly when its buffer is shared memory that is still there,
/// what its source stands for overlaps it, and a row of the overlap fits a row of the buffer.
/// The overlap is copied from the source to the start of the buffer, and nothing is said but
/// the constraints, where the sizes differ. Else the frame fails, once, and the next capture
/// is served at once.
pub proof fn captures_copy_the_overlap(s: IccSession, now: Resolved, b: WlBuffer)
    requires
        s.status is Capturing,
        s.frame is Some,
        b.wf(),
    ensures
        ({
            let v = serving(s, Some(now), Some(b));
            let (bw, bh) = (b.rect.x2 - b.rect.x1, b.rect.y2 - b.rect.y1);
            &&& v.job is Some <==> {
                &&& b.storage is Shm && !b.destroyed
                &&& bw > 0 && bh > 0 && now.w > 0 && now.h > 0
                &&& b.stride >= 4 * bw || b.stride >= 4 * now.w
            }
            &&& v.job matches Some(j) ==> {
                &&& j.target == now.target && j.paint_cursors == s.paint_cursors
                &&& j.w <= bw && j.w <= now.w && (j.w == bw || j.w == now.w)
                &&& j.h <= bh && j.h <= now.h && (j.h == bh || j.h == now.h)
                &&& b.storage matches BufferStorage::Shm { offset, .. } && j.base == offset
                &&& j.stride == b.stride
                &&& now.target is Win ==> j.src_stride == 4 * now.w
                &&& now.target is Out ==> j.src_stride == 4 * j.w
                &&& v.session.status is Capturing && v.session.force == s.force
                &&& bw == now.w && bh == now.h ==> v.events.len() == 0 && v.session == s
            }
            &&& v.job is None ==> {
                &&& v.session.status is Failed && v.session.force && !v.session.stopped == !s.stopped
                &&& v.events.len() > 0 && v.events.last().client == s.client && v.events.last().object == s.frame->0
                &&& v.events.last().event is FrameFailed
                &&& forall|i: int| 0 <= i < v.events.len() - 1 ==> !((#[trigger] v.events[i]).event is FrameFailed)
            }
            &&& v.session.uid == s.uid && v.session.source == s.source && v.session.frame == s.frame && v.session.buffer
                == s.buffer && v.session.id == s.id && v.session.client == s.client
        }),
{
}

/// A pending capture whose source is gone ends the session: its client hears that it stopped
/// and that the frame failed. What is not pending is left alone.
pub proof fn captures_of_nothing_end_the_session(s: IccSession, b: WlBuffer, now: Option<Resolved>)
    requires
        s.frame is Some,
        !s.stopped,
    ensures
        s.status is Capturing ==> {
            let v = serving(s, None, Some(b));
            &&& v.job is None
            &&& v.session.stopped && v.session.status is Failed
            &&& v.events.len() == 2
            &&& v.events[0].client == s.client && v.events[0].object == s.id && v.events[0].event is SessionStopped
            &&& v.events[1].client == s.client && v.events[1].object == s.frame->0 && v.events[1].event is FrameFailed
        },
        !(s.status is Capturing) ==> {
            let v = serving(s, now, Some(b));
            v.job is None && v.session == s && v.events.len() == 0
        },
{
}

/// A finished frame is upright, all of it new, with its time, and last of all ready.
pub proof fn ready_frames_say_all(client: u32, frame: crate::protocol::ObjectId, bw: u32, bh: u32, nsec: u64, i: int)
    requires
        bw <= i32::MAX && bh <= i32::MAX,
    ensures
        ({
            let r = readiness(client, frame, bw, bh, nsec);
            &&& 0 <= i < r.len() ==> r[i].client == client && r[i].object == frame
            &&& r.last().event is FrameReady
            &&& exists|j: int| 0 <= j < r.len() && #[trigger] r[j].event == (Event::FrameTransform { transform: 0 })
            &&& exists|j: int|
                0 <= j < r.len() && (#[trigger] r[j].event matches Event::FrameDamage { x, y, width, height } && x == 0 && y == 0
                    && width == bw && height == bh)
            &&& exists|j: int|
                0 <= j < r.len() && (#[trigger] r[j].event matches Event::FramePresented { sec_hi, sec_lo, nsec: ns } && (
                sec_hi * 0x1_0000_0000 + sec_lo) * 1_000_000_000 + ns == nsec && ns < 1_000_000_000)
        }),
{
    let r = readiness(client, frame, bw, bh, nsec);
    assert(r[0].event == (Event::FrameTransform { transform: 0 }));
    assert(r[1].event is FrameDamage);
    assert(r[2].event is FramePresented);
    let secs = nsec / 1_000_000_000;
    assert(secs >> 32u64 == secs / 0x1_0000_0000 && secs & 0xffff_ffff == secs % 0x1_0000_0000) by (bit_vector);
}

/// A frame of an output completes exactly the live captures that wait for it, each once, in
/// order.
pub proof fn frames_complete_what_waits_for_them(list: Seq<IccSession>, name: Seq<char>, k: usize)
    requires
        list.len() <= usize::MAX,
    ensures
        ({
            let slots = slots_of(list, awaits_output(name));
            &&& slots.contains(k) <==> k < list.len() && !list[k as int].stopped && list[k as int].status is Capturing && (
            list[k as int].source matches SourceKind::Output(n) && n@ == name)
            &&& forall|i: int, j: int| 0 <= i < j < slots.len() ==> #[trigger] slots[i] < #[trigger] slots[j]
        }),
{
    slots_in_order(list, awaits_output(name), k);
}

/// New pixels of a surface complete exactly the live captures of the window it belongs to.
pub proof fn pixels_complete_what_waits_for_them(
    list: Seq<IccSession>,
    windows: Seq<LiveWindow>,
    surface: u64,
    k: usize,
    w: u64,
    j: int,
)
    requires
        list.len() <= usize::MAX,
        k < list.len(),
        list[k as int].source == SourceKind::Toplevel(Some(w)),
        0 <= j < windows.len(),
        windows[j].uid == w,
        forall|i: int| 0 <= i < j ==> (#[trigger] windows[i]).uid != w,
    ensures
        slots_of(list, awaits_surface(windows, surface)).contains(k) <==> !list[k as int].stopped && list[k as int].status is Capturing
            && in_tree(windows[j].tree, surface),
{
    slots_in_order(list, awaits_surface(windows, surface), k);
    assert forall|i: int| 0 <= i < j implies !is_window(w)(#[trigger] windows[i]) by {}
    first_slot_found(windows, is_window(w), j);
}

/// A surface is in a stack when it is the stack's own or in that of one of its subsurfaces.
pub proof fn stacks_hold_their_subsurfaces(n: SurfaceNode, uid: u64)
    ensures
        in_tree(n, uid) <==> {
            ||| n.info.uid == uid
            ||| exists|i: int| 0 <= i < n.below@.len() && in_tree((#[trigger] n.below@[i]).surface, uid)
            ||| exists|i: int| 0 <= i < n.above@.len() && in_tree((#[trigger] n.above@[i]).surface, uid)
        },
{
    subs_hold(n.below@, n.below@.len(), uid);
    subs_hold(n.above@, n.above@.len(), uid);
}

proof fn subs_hold(subs: Seq<crate::output::scene::SubNode>, n: nat, uid: u64)
    requires
        n <= subs.len(),
    ensures
        in_subs(subs, n, uid) <==> exists|i: int| 0 <= i < n && in_tree((#[trigger] subs[i]).surface, uid),
    decreases n,
{
    if n > 0 {
        subs_hold(subs, (n - 1) as nat, uid);
        if in_tree(subs[n - 1].surface, uid) {
            assert(in_tree(subs[n - 1].surface, uid));
        }
    }
}

proof fn slots_in_order(list: Seq<IccSession>, p: spec_fn(IccSession) -> bool, k: usize)
    requires
        list.len() <= usize::MAX,
    ensures
        slots_of(list, p).contains(k) <==> k < list.len() && p(list[k as int]),
        forall|i: int, j: int| 0 <= i < j < slots_of(list, p).len() ==> #[trigger] slots_of(list, p)[i] < #[trigger] slots_of(
            list,
            p,
        )[j],
        forall|i: int| 0 <= i < slots_of(list, p).len() ==> #[trigger] slots_of(list, p)[i] < list.len(),
    decreases list.len(),
{
    if list.len() > 0 {
        let rest = list.drop_last();
        slots_in_order(rest, p, k);
        let front = slots_of(rest, p);
        let all = slots_of(list, p);
        let last = (list.len() - 1) as usize;
        if p(list.last()) {
            assert(all == front.push(last));
            assert(all[front.len() as int] == last);
            if front.contains(k) {
                let i = choose|i: int| 0 <= i < front.len() && front[i] == k;
                assert(all[i] == k);
            }
            if all.contains(k) && k != last {
                let i = choose|i: int| 0 <= i < all.len() && all[i] == k;
                assert(front[i] == k);
            }
            assert forall|i: int, j: int| 0 <= i < j < all.len() implies #[trigger] all[i] < #[trigger] all[j] by {
                assert(all[i] == front[i]);
                if j < front.len() {
                    assert(all[j] == front[j]);
                }
            }
        }
    }
}

/// The captures that waited are served in order, each in turn, up to the first that has
/// pixels to copy; where none has, all of them are done with. The others are left alone.
pub proof fn waiting_captures_are_served_in_turn(
    list: Seq<IccSession>,
    outs: Seq<Output>,
    windows: Seq<LiveWindow>,
    bufs: Seq<WlBuffer>,
    waiting: Seq<usize>,
    at: int,
    k: int,
)
    requires
        0 <= at <= waiting.len(),
        forall|i: int| 0 <= i < waiting.len() ==> #[trigger] waiting[i] < list.len(),
    ensures
        ({
            let v = serve_from(list, outs, windows, bufs, waiting, at);
            &&& v.list.len() == list.len()
            &&& at <= v.at <= waiting.len()
            &&& v.job is Some <==> v.at < waiting.len()
            &&& 0 <= k < list.len() && (forall|i: int| at <= i < waiting.len() ==> #[trigger] waiting[i] != k) ==> v.list[k]
                == list[k]
        }),
    decreases waiting.len() - at,
{
    if at < waiting.len() {
        let x = waiting[at] as int;
        let v = serving(
            list[x],
            list[x].source.resolved(outs, windows),
            crate::output::tail::buffer_in(bufs, list[x].buffer),
        );
        if v.job is None {
            waiting_captures_are_served_in_turn(list.update(x, v.session), outs, windows, bufs, waiting, at + 1, k);
        }
    }
}

/// A cut-out keeps its pixels in place: its pixel at (x, y) is the frame's at that offset
/// from the corner of the region, byte for byte.
pub proof fn cut_outs_keep_their_pixels(region: Rect, w: int, x: int, y: int, c: int)
    requires
        0 <= x < region.x2 - region.x1,
        0 <= y,
        0 <= c < 4,
    ensures
        crop_source(region, w, (y * (region.x2 - region.x1) + x) * 4 + c) == ((region.y1 + y) * w + region.x1 + x) * 4 + c,
{
    let rw = region.x2 - region.x1;
    let i = (y * rw + x) * 4 + c;
    assert(i == y * (rw * 4) + (x * 4 + c)) by (nonlinear_arith)
        requires
            i == (y * rw + x) * 4 + c,
    ;
    place_of_byte(y, x * 4 + c, rw);
    assert((region.y1 + y) * (w * 4) == ((region.y1 + y) * w) * 4) by (nonlinear_arith);
}

/// A picture of a window shows the frame where the window is on the screen, pixel for pixel,
/// and black where it hangs off.
pub proof fn window_pictures_show_what_is_on_screen(full: Seq<u8>, out: Rect, w: int, rect: Rect, x: int, y: int, c: int)
    requires
        0 <= x < rect.x2 - rect.x1,
        0 <= y,
        0 <= c < 4,
    ensures
        ({
            let (gx, gy) = (rect.x1 + x, rect.y1 + y);
            let byte = window_byte(full, out, w, rect, (y * (rect.x2 - rect.x1) + x) * 4 + c);
            if out.x1 <= gx < out.x2 && out.y1 <= gy < out.y2 {
                byte == full[((gy - out.y1) * w + (gx - out.x1)) * 4 + c]
            } else {
                byte == 0
            }
        }),
{
    let rw = rect.x2 - rect.x1;
    let i = (y * rw + x) * 4 + c;
    assert(i == y * (rw * 4) + (x * 4 + c)) by (nonlinear_arith)
        requires
            i == (y * rw + x) * 4 + c,
    ;
    place_of_byte(y, x * 4 + c, rw);
    let gy = rect.y1 + y;
    assert((gy - out.y1) * (w * 4) == ((gy - out.y1) * w) * 4) by (nonlinear_arith);
}

/// A workspace is captured on the output that it is bound to, and on the first where that
/// output is gone; not without a workspace or an output.
pub proof fn workspaces_are_captured_where_they_are_bound(bound: Seq<usize>, n: nat, ws: usize)
    ensures
        capture_slot_spec(bound, n, ws) is Some <==> ws < bound.len() && n > 0,
        ws < bound.len() && bound[ws as int] < n ==> capture_slot_spec(bound, n, ws) == Some(bound[ws as int] as int),
        capture_slot_spec(bound, n, ws) matches Some(k) ==> 0 <= k < n && (k == bound[ws as int] || k == 0),
{
}

} // verus!
