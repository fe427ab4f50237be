//! What a screen cast shows: the picture of its source whenever that source is on glass on
//! the output that presented, and nothing else.
use crate::output::{first_slot, first_slot_found, first_slot_is_lowest, named};
use crate::portal::cast::{
    aim_spec, fed_one, feed_spec, find_spec, fresh_cast, has_ident, last_slot, of_app, of_app_titled, output_pick,
    placed_ident, presented_casts, refresh_spec, restored_window, some_dead, window_rate, window_source_spec, Aim, Cap,
    Cast, Desktop, Feed, NodeState, Source, Window,
};
use vstd::prelude::*;

verus! {

/// The output of that name: the first, where names repeat.
pub open spec fn presents(d: Desktop, name: Seq<char>, k: int) -> bool {
    &&& 0 <= k < d.outputs@.len()
    &&& d.outputs@[k].name@ == name
    &&& forall|j: int| 0 <= j < k ==> (#[trigger] d.outputs@[j]).name@ != name
}

/// The window of that ident: the first, where idents repeat.
pub open spec fn carries(d: Desktop, ident: u64, j: int) -> bool {
    &&& 0 <= j < d.windows@.len()
    &&& d.windows@[j].ident == ident
    &&& forall|i: int| 0 <= i < j ==> (#[trigger] d.windows@[i]).ident != ident
}

/// The source of a cast is on glass on output `k`: it is that output; or a workspace that the
/// output shows; or a mapped window with a size on the workspace that the output shows.
/// `cap` is then what is captured, `w` by `h` its size.
pub open spec fn on_glass(src: Source, d: Desktop, k: int, cap: Cap, w: u32, h: u32) -> bool {
    let o = d.outputs@[k];
    match src {
        Source::Output(name) => name@ == o.name@ && cap == Cap::Out(o.index) && w == o.width && h == o.height,
        Source::Workspace(index) => index < d.bound@.len() && o.ws == index && cap == Cap::Out(o.index) && w == o.width && h
            == o.height,
        Source::Window { ident, .. } => exists|j: int|
            {
                &&& #[trigger] carries(d, ident, j)
                &&& d.windows@[j].mapped
                &&& d.windows@[j].ws == Some(o.ws)
                &&& o.ws < d.bound@.len()
                &&& d.windows@[j].rect.x1 < d.windows@[j].rect.x2
                &&& d.windows@[j].rect.y1 < d.windows@[j].rect.y2
                &&& cap == Cap::Win(ident)
                &&& w == d.windows@[j].rect.x2 - d.windows@[j].rect.x1
                &&& h == d.windows@[j].rect.y2 - d.windows@[j].rect.y1
            },
    }
}

/// The source is gone for good: no window has its ident, or there are fewer workspaces.
pub open spec fn is_gone(src: Source, d: Desktop) -> bool {
    match src {
        Source::Output(_) => false,
        Source::Workspace(index) => index >= d.bound@.len(),
        Source::Window { ident, .. } => forall|j: int| 0 <= j < d.windows@.len() ==> (#[trigger] d.windows@[j]).ident != ident,
    }
}

proof fn named_output(d: Desktop, name: Seq<char>)
    ensures
        first_slot(d.outputs@, named(name)) matches Some(k) ==> presents(d, name, k),
        first_slot(d.outputs@, named(name)) is None ==> forall|k: int| !presents(d, name, k),
        forall|k: int| presents(d, name, k) ==> first_slot(d.outputs@, named(name)) == Some(k),
{
    first_slot_is_lowest(d.outputs@, named(name));
    assert forall|k: int| presents(d, name, k) implies first_slot(d.outputs@, named(name)) == Some(k) by {
        assert forall|j: int| 0 <= j < k implies !named(name)(#[trigger] d.outputs@[j]) by {}
        first_slot_found(d.outputs@, named(name), k);
    }
    if let Some(k) = first_slot(d.outputs@, named(name)) {
        assert forall|j: int| 0 <= j < k implies (#[trigger] d.outputs@[j]).name@ != name by {
            assert(!named(name)(d.outputs@[j]));
        }
    }
}

proof fn known_window(d: Desktop, ident: u64)
    ensures
        first_slot(d.windows@, has_ident(ident)) matches Some(j) ==> carries(d, ident, j),
        first_slot(d.windows@, has_ident(ident)) is None ==> forall|j: int|
            0 <= j < d.windows@.len() ==> (#[trigger] d.windows@[j]).ident != ident,
        forall|j: int| #[trigger] carries(d, ident, j) ==> first_slot(d.windows@, has_ident(ident)) == Some(j),
{
    first_slot_is_lowest(d.windows@, has_ident(ident));
    if let Some(k) = first_slot(d.windows@, has_ident(ident)) {
        assert forall|j: int| 0 <= j < k implies (#[trigger] d.windows@[j]).ident != ident by {
            assert(!has_ident(ident)(d.windows@[j]));
        }
    } else {
        assert forall|j: int| 0 <= j < d.windows@.len() implies (#[trigger] d.windows@[j]).ident != ident by {
            assert(!has_ident(ident)(d.windows@[j]));
        }
    }
    assert forall|j: int| #[trigger] carries(d, ident, j) implies first_slot(d.windows@, has_ident(ident)) == Some(j) by {
        assert forall|i: int| 0 <= i < j implies !has_ident(ident)(#[trigger] d.windows@[i]) by {}
        first_slot_found(d.windows@, has_ident(ident), j);
    }
}

proof fn aims_at_glass(src: Source, d: Desktop, presented: Seq<char>)
    ensures
        match aim_spec(src, d, presented) {
            Aim::Gone => is_gone(src, d),
            Aim::At(cap, w, h) => !is_gone(src, d) && exists|k: int|
                #[trigger] presents(d, presented, k) && on_glass(src, d, k, cap, w, h),
            Aim::Idle => !is_gone(src, d) && forall|k: int, cap: Cap, w: u32, h: u32|
                #[trigger] presents(d, presented, k) ==> !(#[trigger] on_glass(src, d, k, cap, w, h)),
        },
        forall|k: int, cap: Cap, w: u32, h: u32|
            #[trigger] presents(d, presented, k) && #[trigger] on_glass(src, d, k, cap, w, h) ==> aim_spec(src, d, presented)
                == Aim::At(cap, w, h),
{
    named_output(d, presented);
    if let Source::Window { ident, .. } = src {
        known_window(d, ident);
    }
    let aim = aim_spec(src, d, presented);
    assert forall|k: int, cap: Cap, w: u32, h: u32|
        #[trigger] presents(d, presented, k) && #[trigger] on_glass(src, d, k, cap, w, h) implies aim == Aim::At(cap, w, h) by {
        if let Source::Window { ident, .. } = src {
            let j = choose|j: int|
                {
                    &&& #[trigger] carries(d, ident, j)
                    &&& d.windows@[j].mapped
                    &&& d.windows@[j].ws == Some(d.outputs@[k].ws)
                    &&& d.outputs@[k].ws < d.bound@.len()
                    &&& d.windows@[j].rect.x1 < d.windows@[j].rect.x2
                    &&& d.windows@[j].rect.y1 < d.windows@[j].rect.y2
                    &&& cap == Cap::Win(ident)
                    &&& w == d.windows@[j].rect.x2 - d.windows@[j].rect.x1
                    &&& h == d.windows@[j].rect.y2 - d.windows@[j].rect.y1
                };
            assert(carries(d, ident, j));
        }
    }
    if let Aim::At(cap, w, h) = aim {
        let k = first_slot(d.outputs@, named(presented))->0;
        assert(presents(d, presented, k));
        if let Source::Window { ident, .. } = src {
            let j = first_slot(d.windows@, has_ident(ident))->0;
            assert(carries(d, ident, j));
        }
        assert(on_glass(src, d, k, cap, w, h));
    }
    if is_gone(src, d) {
        if let Source::Window { ident, .. } = src {
            if let Some(j) = first_slot(d.windows@, has_ident(ident)) {
                assert(carries(d, ident, j));
            }
        }
    }
}

/// The time since the last frame is nine tenths of a period, or more.
pub open spec fn frame_due(c: Cast, now: u64) -> bool {
    now - c.last >= c.frame_ns - c.frame_ns / 10 || c.frame_ns - c.frame_ns / 10 == 0
}

/// A cast captures a presented frame exactly when its source is on glass on the output that
/// presented, in the size that the stream has, while its node is ready and a frame is due;
/// and it captures just that output or window. Sizes of an output are those that coordinates
/// can express.
pub proof fn casts_capture_what_is_on_glass(
    c: Cast,
    d: Desktop,
    presented: Seq<char>,
    n: NodeState,
    now: u64,
    cap: Cap,
    w: u32,
    h: u32,
)
    ensures
        feed_spec(c, d, presented, n, now).1 == (Feed::Capture { cap, width: w, height: h }) <==> {
            &&& exists|k: int| #[trigger] presents(d, presented, k) && on_glass(c.source, d, k, cap, w, h)
            &&& n.width == w && n.height == h && n.ready
            &&& frame_due(c, now)
            &&& cap is Out ==> w <= i32::MAX && h <= i32::MAX
        },
{
    aims_at_glass(c.source, d, presented);
    if exists|k: int| #[trigger] presents(d, presented, k) && on_glass(c.source, d, k, cap, w, h) {
        let k = choose|k: int| #[trigger] presents(d, presented, k) && on_glass(c.source, d, k, cap, w, h);
        assert(aim_spec(c.source, d, presented) == Aim::At(cap, w, h));
    }
    if let Aim::At(x, y, z) = aim_spec(c.source, d, presented) {
        let k = choose|k: int| #[trigger] presents(d, presented, k) && on_glass(c.source, d, k, x, y, z);
        assert(presents(d, presented, k));
    }
}

/// In particular a workspace that the presented output shows is streamed from that output.
pub proof fn shown_workspaces_are_streamed(c: Cast, d: Desktop, k: int, index: usize, n: NodeState, now: u64)
    requires
        c.source == Source::Workspace(index),
        presents(d, d.outputs@[k].name@, k),
        d.outputs@[k].ws == index,
        index < d.bound@.len(),
        n.ready,
        n.width == d.outputs@[k].width && n.height == d.outputs@[k].height,
        n.width <= i32::MAX && n.height <= i32::MAX,
        now - c.last >= c.frame_ns,
    ensures
        feed_spec(c, d, d.outputs@[k].name@, n, now) == (
            c,
            Feed::Capture { cap: Cap::Out(d.outputs@[k].index), width: n.width, height: n.height },
        ),
{
    let o = d.outputs@[k];
    casts_capture_what_is_on_glass(c, d, o.name@, n, now, Cap::Out(o.index), n.width, n.height);
    assert(on_glass(c.source, d, k, Cap::Out(o.index), n.width, n.height));
    assert(presents(d, o.name@, k));
}

/// A stream is renegotiated exactly when its source is on glass with a size that the stream
/// does not have and was not asked for yet; the cast remembers what it asked for, and dies
/// exactly when its source is gone. Nothing else about it changes.
pub proof fn streams_follow_the_size_of_their_source(
    c: Cast,
    d: Desktop,
    presented: Seq<char>,
    n: NodeState,
    now: u64,
    w: u32,
    h: u32,
)
    ensures
        ({
            let (after, fed) = feed_spec(c, d, presented, n, now);
            &&& fed == (Feed::Resize { width: w, height: h }) <==> {
                &&& exists|k: int, cap: Cap| #[trigger] presents(d, presented, k) && #[trigger] on_glass(c.source, d, k, cap, w, h)
                &&& n.width != w || n.height != h
                &&& c.resize_target != (w, h)
            }
            &&& after == (Cast {
                dead: c.dead || is_gone(c.source, d),
                resize_target: match fed {
                    Feed::Resize { width, height } => (width, height),
                    _ => c.resize_target,
                },
                ..c
            })
            &&& is_gone(c.source, d) ==> fed is Nothing
        }),
{
    aims_at_glass(c.source, d, presented);
    if exists|k: int, cap: Cap| #[trigger] presents(d, presented, k) && #[trigger] on_glass(c.source, d, k, cap, w, h) {
        let (k, cap): (int, Cap) = choose|k: int, cap: Cap|
            #[trigger] presents(d, presented, k) && #[trigger] on_glass(c.source, d, k, cap, w, h);
        assert(aim_spec(c.source, d, presented) == Aim::At(cap, w, h));
    }
    if let Aim::At(x, y, z) = aim_spec(c.source, d, presented) {
        let k = choose|k: int| #[trigger] presents(d, presented, k) && on_glass(c.source, d, k, x, y, z);
        assert(presents(d, presented, k) && on_glass(c.source, d, k, x, y, z));
    }
}

/// When an output presents, every live cast is fed, each for itself, and a dead one gets
/// nothing and leaves. No cast that lives on is lost, and none is made up.
pub proof fn every_live_cast_is_fed(
    a: Seq<Cast>,
    b: Seq<Cast>,
    feeds: Seq<Feed>,
    d: Desktop,
    name: Seq<char>,
    nodes: Seq<NodeState>,
    now: u64,
    i: int,
)
    requires
        presented_casts(a, b, feeds, d, name, nodes, now),
        0 <= i < a.len(),
    ensures
        feeds.len() == a.len(),
        a[i].dead ==> feeds[i] is Nothing,
        !a[i].dead ==> feeds[i] == feed_spec(a[i], d, name, nodes[i], now).1,
        !feed_spec(a[i], d, name, nodes[i], now).0.dead ==> b.contains(feed_spec(a[i], d, name, nodes[i], now).0),
        (exists|j: int| 0 <= j < a.len() && (#[trigger] a[j]).dead) ==> forall|j: int|
            0 <= j < b.len() ==> !(#[trigger] b[j]).dead,
{
    let after = crate::portal::cast::fed_all(a, d, name, nodes, now);
    let alive = crate::portal::cast::alive();
    assert(feeds[i] == fed_one(a[i], d, name, nodes[i], now).1);
    streams_follow_the_size_of_their_source(a[i], d, name, nodes[i], now, 0, 0);
    let it = feed_spec(a[i], d, name, nodes[i], now).0;
    broadcast use vstd::seq_lib::group_filter_ensures;

    if !it.dead {
        assert(!a[i].dead);
        assert(after[i] == it);
        assert(alive(after[i]));
        if some_dead(a) {
            assert(after.filter(alive).contains(after[i]));
        }
    }
    if exists|j: int| 0 <= j < a.len() && (#[trigger] a[j]).dead {
        assert(some_dead(a));
        assert forall|j: int| 0 <= j < b.len() implies !(#[trigger] b[j]).dead by {
            assert(alive(after.filter(alive)[j]));
        }
    }
}

/// A restored output is the one of that name while it is there, else the focused one, else
/// the first; without any output there is nothing to stream.
pub proof fn restored_outputs_come_back(d: Desktop, name: Seq<char>, k: int)
    ensures
        presents(d, name, k) ==> output_pick(d, name) == Some(k),
        (forall|j: int| 0 <= j < d.outputs@.len() ==> (#[trigger] d.outputs@[j]).name@ != name) ==> {
            &&& d.focused_output < d.outputs@.len() ==> output_pick(d, name) == Some(d.focused_output as int)
            &&& d.focused_output >= d.outputs@.len() && d.outputs@.len() > 0 ==> output_pick(d, name) == Some(0int)
            &&& d.outputs@.len() == 0 ==> output_pick(d, name) is None
        },
{
    named_output(d, name);
    if let Some(j) = first_slot(d.outputs@, named(name)) {
        assert(presents(d, name, j));
    }
}

/// A stream runs at the rate of its output's mode, at least one frame a second, and at sixty
/// without a mode; a window's at that of the output that its workspace is bound to, and at
/// sixty where there is none.
pub proof fn streams_run_at_the_rate_of_their_output(d: Desktop, w: Window, k: int)
    ensures
        0 <= k < d.outputs@.len() ==> {
            let o = d.outputs@[k];
            &&& refresh_spec(o) >= 1
            &&& o.vrefresh is None ==> refresh_spec(o) == 60
            &&& o.vrefresh is Some && o.vrefresh->0 >= 1 ==> refresh_spec(o) == o.vrefresh->0
            &&& w.ws is Some && w.ws->0 < d.bound@.len() && d.bound@[w.ws->0 as int] == k ==> window_rate(d, w)
                == refresh_spec(o)
        },
        (w.ws is None || (w.ws->0 < d.bound@.len() ==> d.bound@[w.ws->0 as int] >= d.outputs@.len())) ==> window_rate(d, w)
            == 60,
{
}

/// A fresh cast streams at once what it was started for: while its window is on glass in the
/// size it was picked with, and its node took that size, the first frame that is due is
/// captured, in the size that was resolved.
pub proof fn fresh_window_casts_stream_at_once(
    d: Desktop,
    k: int,
    j: int,
    session: String,
    cursor: bool,
    node_id: u32,
    now: u64,
)
    requires
        presents(d, d.outputs@[k].name@, k),
        carries(d, d.windows@[j].ident, j),
        d.windows@[j].mapped,
        d.windows@[j].ws == Some(d.outputs@[k].ws),
        d.outputs@[k].ws < d.bound@.len(),
        d.windows@[j].rect.x1 < d.windows@[j].rect.x2,
        d.windows@[j].rect.y1 < d.windows@[j].rect.y2,
        now >= 1_000_000_000,
    ensures
        window_source_spec(d, d.windows@[j]) matches Ok(r) && {
            let c = fresh_cast(session, r, cursor, node_id);
            let n = NodeState { width: r.width, height: r.height, ready: true };
            &&& r.pos == (d.windows@[j].rect.x1, d.windows@[j].rect.y1)
            &&& r.source matches Source::Window { ident, app_id, title } && ident == d.windows@[j].ident && app_id
                == d.windows@[j].app_id && title == d.windows@[j].title
            &&& r.fps == window_rate(d, d.windows@[j])
            &&& feed_spec(c, d, d.outputs@[k].name@, n, now) == (
                c,
                Feed::Capture { cap: Cap::Win(d.windows@[j].ident), width: r.width, height: r.height },
            )
        },
{
    let w = d.windows@[j];
    let r = window_source_spec(d, w)->Ok_0;
    let c = fresh_cast(session, r, cursor, node_id);
    let n = NodeState { width: r.width, height: r.height, ready: true };
    streams_run_at_the_rate_of_their_output(d, w, d.bound@[d.outputs@[k].ws as int] as int);
    assert(r.fps >= 1);
    short_periods(r.fps);
    casts_capture_what_is_on_glass(c, d, d.outputs@[k].name@, n, now, Cap::Win(w.ident), r.width, r.height);
    assert(carries(d, w.ident, j));
    assert(on_glass(c.source, d, k, Cap::Win(w.ident), r.width, r.height));
    assert(presents(d, d.outputs@[k].name@, k));
}

proof fn short_periods(fps: u32)
    requires
        fps >= 1,
    ensures
        0 <= 1_000_000_000u64 / fps as u64 <= 1_000_000_000,
{
    vstd::arithmetic::div_mod::lemma_div_is_ordered_by_denominator(1_000_000_000, 1, fps as int);
    vstd::arithmetic::div_mod::lemma_div_pos_is_pos(1_000_000_000, fps as int);
}

/// A token names a window: the one of its ident while that is in some workspace; else the
/// first of its app with its title; else the first of its app, where it has an app id. Where
/// there is none, the focused window stands in.
pub proof fn tokens_name_the_closest_window(d: Desktop, ident: u64, app_id: Seq<char>, title: Seq<char>)
    ensures
        ({
            let ws = d.windows@;
            let by_ident = exists|i: int| 0 <= i < ws.len() && (#[trigger] ws[i]).ws is Some && ws[i].ident == ident;
            let by_both = exists|i: int|
                0 <= i < ws.len() && (#[trigger] ws[i]).ws is Some && ws[i].app_id@ == app_id && app_id.len() > 0
                    && ws[i].title@ == title;
            let by_app = exists|i: int|
                0 <= i < ws.len() && (#[trigger] ws[i]).ws is Some && ws[i].app_id@ == app_id && app_id.len() > 0;
            &&& find_spec(ws, ident, app_id, title) is Some <==> by_ident || by_app
            &&& find_spec(ws, ident, app_id, title) matches Some(k) ==> {
                &&& 0 <= k < ws.len() && ws[k].ws is Some
                &&& by_ident ==> ws[k].ident == ident
                &&& !by_ident ==> ws[k].app_id@ == app_id
                &&& !by_ident && by_both ==> ws[k].title@ == title && forall|i: int|
                    0 <= i < k ==> !((#[trigger] ws[i]).ws is Some && ws[i].app_id@ == app_id && ws[i].title@ == title)
                &&& !by_ident && !by_both ==> forall|i: int|
                    0 <= i < k ==> !((#[trigger] ws[i]).ws is Some && ws[i].app_id@ == app_id)
                &&& restored_window(d, ident, app_id, title) == Some(k)
            }
            &&& find_spec(ws, ident, app_id, title) is None ==> restored_window(d, ident, app_id, title) == (
            if d.focused_window is Some && d.focused_window->0 < ws.len() { Some(d.focused_window->0 as int) } else { None })
        }),
{
    let ws = d.windows@;
    last_slot_is_highest(ws, placed_ident(ident));
    first_slot_is_lowest(ws, of_app_titled(app_id, title));
    first_slot_is_lowest(ws, of_app(app_id));
    if let Some(k) = last_slot(ws, placed_ident(ident)) {
        assert(ws[k].ws is Some && ws[k].ident == ident);
    } else {
        assert forall|i: int| 0 <= i < ws.len() implies !((#[trigger] ws[i]).ws is Some && ws[i].ident == ident) by {
            assert(!placed_ident(ident)(ws[i]));
        }
        if let Some(k) = first_slot(ws, of_app_titled(app_id, title)) {
            assert(ws[k].ws is Some && ws[k].app_id@ == app_id && app_id.len() > 0 && ws[k].title@ == title);
            assert forall|i: int| 0 <= i < k implies !((#[trigger] ws[i]).ws is Some && ws[i].app_id@ == app_id && ws[i].title@
                == title) by {
                assert(!of_app_titled(app_id, title)(ws[i]));
            }
        } else {
            assert forall|i: int| 0 <= i < ws.len() implies !((#[trigger] ws[i]).ws is Some && ws[i].app_id@ == app_id
                && app_id.len() > 0 && ws[i].title@ == title) by {
                assert(!of_app_titled(app_id, title)(ws[i]));
            }
            if let Some(k) = first_slot(ws, of_app(app_id)) {
                assert(ws[k].ws is Some && ws[k].app_id@ == app_id && app_id.len() > 0);
                assert forall|i: int| 0 <= i < k implies !((#[trigger] ws[i]).ws is Some && ws[i].app_id@ == app_id) by {
                    assert(!of_app(app_id)(ws[i]));
                }
            } else {
                assert forall|i: int| 0 <= i < ws.len() implies !((#[trigger] ws[i]).ws is Some && ws[i].app_id@ == app_id
                    && app_id.len() > 0) by {
                    assert(!of_app(app_id)(ws[i]));
                }
            }
        }
    }
}

proof fn last_slot_is_highest(s: Seq<Window>, p: spec_fn(Window) -> bool)
    ensures
        match last_slot(s, p) {
            Some(k) => 0 <= k < s.len() && p(s[k]),
            None => forall|j: int| 0 <= j < s.len() ==> !p(#[trigger] s[j]),
        },
    decreases s.len(),
{
    if s.len() > 0 {
        last_slot_is_highest(s.drop_last(), p);
        assert(forall|j: int| 0 <= j < s.len() - 1 ==> s.drop_last()[j] == s[j]);
    }
}

} // verus!
