//! Where things are put: boxes past an edge, the pointer's range, the focus after a change of
//! outputs, the textures of what closes.
use crate::output::bringup::boot_bound;
use crate::output::closing::{finished_textures, ClosingWindow};
use crate::output::present::{config_named, vrr_mode, ws_switch_spec, OutputConfig, Style, Travel, Vrr};
use crate::output::textures::{distinct_keys, keyed, seize_spec, TexEntry, TexKey};
use crate::output::topology::{has_uid, refocused, relaid_row, tiled_all, Layout};
use crate::output::{
    edge_gap, first_slot, first_slot_found, first_slot_is_lowest, glass_x, nearest_edge_spec, slid, Dir, Output,
};
use crate::rect::Rect;
use vstd::prelude::*;

verus! {

/// A box slides out over the edge it is told, or else over one that no other is nearer than,
/// the upper before the lower before the left one: it ends up touching that edge from outside
/// and moves along one axis only.
pub proof fn boxes_slide_over_the_nearest_edge(out: Output, r: Rect, d: Dir, e: Dir)
    ensures
        ({
            let (dx, dy) = slid(out, r, d);
            &&& d is Up ==> dx == 0 && r.y2 + dy == out.pos.1
            &&& d is Down ==> dx == 0 && r.y1 + dy == out.pos.1 + out.height
            &&& d is Left ==> dy == 0 && r.x2 + dx == out.pos.0
            &&& d is Right ==> dy == 0 && r.x1 + dx == out.pos.0 + out.width
        }),
        edge_gap(out, r, nearest_edge_spec(out, r)) <= edge_gap(out, r, e),
        edge_gap(out, r, Dir::Up) <= edge_gap(out, r, e) && nearest_edge_spec(out, r) == e ==> e is Up,
        nearest_edge_spec(out, r) is Right ==> edge_gap(out, r, Dir::Right) < edge_gap(out, r, Dir::Left),
        nearest_edge_spec(out, r) is Left || nearest_edge_spec(out, r) is Right ==> edge_gap(
            out,
            r,
            nearest_edge_spec(out, r),
        ) < edge_gap(out, r, Dir::Down),
        edge_gap(out, r, Dir::Up) == r.y1 - out.pos.1,
        edge_gap(out, r, Dir::Down) == (out.pos.1 + out.height) - r.y2,
        edge_gap(out, r, Dir::Left) == r.x1 - out.pos.0,
        edge_gap(out, r, Dir::Right) == (out.pos.0 + out.width) - r.x2,
{
}

/// The glass reaches from the leftmost to the rightmost column of any output.
pub proof fn the_glass_spans_all_outputs(outs: Seq<Output>, n: nat, i: int)
    requires
        0 <= i < n <= outs.len(),
    ensures
        ({
            let (lo, hi) = glass_x(outs, n);
            &&& lo <= outs[i].rect_spec().x1 && outs[i].rect_spec().x2 <= hi
            &&& exists|k: int| 0 <= k < n && lo == (#[trigger] outs[k]).rect_spec().x1
            &&& exists|k: int| 0 <= k < n && hi == (#[trigger] outs[k]).rect_spec().x2
        }),
    decreases n,
{
    if n <= 1 {
        assert(outs[0].rect_spec().x1 == outs[0].rect_spec().x1);
    } else {
        let (lo, hi) = glass_x(outs, (n - 1) as nat);
        the_glass_spans_all_outputs(outs, (n - 1) as nat, if i < n - 1 { i } else { 0 });
        let a = choose|k: int| 0 <= k < n - 1 && lo == (#[trigger] outs[k]).rect_spec().x1;
        let b = choose|k: int| 0 <= k < n - 1 && hi == (#[trigger] outs[k]).rect_spec().x2;
        let r = outs[n - 1].rect_spec();
        assert(outs[a].rect_spec().x1 == lo && outs[b].rect_spec().x2 == hi);
    }
}

/// An output refreshes as the first block of its name says, and steadily without one.
pub proof fn refresh_goes_by_the_block_of_the_output(cfg: Seq<OutputConfig>, name: Seq<char>, k: int)
    ensures
        0 <= k < cfg.len() && cfg[k].name@ == name && (forall|j: int| 0 <= j < k ==> (#[trigger] cfg[j]).name@ != name)
            ==> vrr_mode(cfg, name) == cfg[k].vrr,
        (forall|j: int| 0 <= j < cfg.len() ==> (#[trigger] cfg[j]).name@ != name) ==> vrr_mode(cfg, name) is Off,
{
    first_slot_is_lowest(cfg, config_named(name));
    if 0 <= k < cfg.len() && cfg[k].name@ == name && (forall|j: int| 0 <= j < k ==> (#[trigger] cfg[j]).name@ != name) {
        assert forall|j: int| 0 <= j < k implies !config_named(name)(#[trigger] cfg[j]) by {}
        first_slot_found(cfg, config_named(name), k);
    }
}

/// A workspace switch leaves the old workspace, goes ahead just when the new one has the
/// higher number, runs upright in a vertical style or where the axis is, fades just in the
/// fading styles, and moves: not at all in a plain fade, by a part where it slides and fades,
/// by the whole screen else.
pub proof fn switches_move_as_their_style_says(style: Style, vertical: bool, from: usize, to: usize)
    ensures
        ({
            let s = ws_switch_spec(style, vertical, from, to);
            &&& s.from_ws == from
            &&& s.ahead <==> from < to
            &&& s.vert <==> vertical || style is SlideVert || style is SlideFadeVert
            &&& s.fade <==> style is Fade || style is SlideFade || style is SlideFadeVert
            &&& s.travel is Nothing <==> style is Fade
            &&& s.travel is Fraction <==> style is SlideFade || style is SlideFadeVert
            &&& s.travel is Whole <==> style is Popin || style is Slide || style is SlideVert
        }),
{
}

/// The focus follows its output to its new slot; where that output left, the first output has
/// it. The active workspace is the one that the focused output shows.
pub proof fn the_focus_follows_its_output(outs: Seq<Output>, before: Seq<u64>, l: Layout, after: Seq<Output>, m: Layout, k: int)
    requires
        relaid_row(outs, before, l, after, m),
        l.focused < before.len(),
    ensures
        ({
            let row = tiled_all(outs);
            let uid = before[l.focused as int];
            &&& 0 <= k < row.len() && row[k].uid == uid && (forall|j: int| 0 <= j < k ==> (#[trigger] row[j]).uid != uid)
                && row.len() <= usize::MAX ==> m.focused == k
            &&& (forall|j: int| 0 <= j < row.len() ==> (#[trigger] row[j]).uid != uid) ==> m.focused == 0
            &&& after.len() > 0 ==> m.active_ws == after[m.focused as int].ws
            &&& after.len() == 0 ==> m.active_ws == 0
        }),
{
    let row = tiled_all(outs);
    let uid = before[l.focused as int];
    first_slot_is_lowest(row, has_uid(uid));
    if 0 <= k < row.len() && row[k].uid == uid && (forall|j: int| 0 <= j < k ==> (#[trigger] row[j]).uid != uid) {
        assert forall|j: int| 0 <= j < k implies !has_uid(uid)(#[trigger] row[j]) by {}
        first_slot_found(row, has_uid(uid), k);
    }
}

/// At boot each of the first nine outputs has a workspace of its own number; further
/// workspaces keep their binding.
pub proof fn outputs_start_with_a_workspace_each(bound: Seq<usize>, n: nat, k: int)
    ensures
        0 <= k < n && k < 9 ==> k < boot_bound(bound, n).len() && boot_bound(bound, n)[k] == k as usize,
        k >= n && 0 <= k < bound.len() ==> boot_bound(bound, n)[k] == bound[k],
        k >= 9 && 0 <= k < bound.len() ==> boot_bound(bound, n)[k] == bound[k],
        bound.len() <= boot_bound(bound, n).len(),
        boot_bound(bound, n).len() <= bound.len() || (boot_bound(bound, n).len() <= n && boot_bound(bound, n).len() <= 9),
{
}

/// The textures that a stash lets go of are just those that its finished entries keep.
pub proof fn finished_entries_let_their_textures_go(list: Seq<ClosingWindow>, n: nat, t: u64)
    requires
        n <= list.len(),
    ensures
        finished_textures(list, n).contains(t) <==> exists|i: int|
            0 <= i < n && (#[trigger] list[i]).done && list[i].keep@.contains(t),
    decreases n,
{
    if n > 0 {
        finished_entries_let_their_textures_go(list, (n - 1) as nat, t);
        let front = finished_textures(list, (n - 1) as nat);
        let all = finished_textures(list, n);
        let own = if list[n - 1].done { list[n - 1].keep@ } else { Seq::empty() };
        assert(all == front + own);
        if front.contains(t) {
            let i = choose|i: int| 0 <= i < front.len() && front[i] == t;
            assert(all[i] == t);
        }
        if own.contains(t) {
            let i = choose|i: int| 0 <= i < own.len() && own[i] == t;
            assert(all[front.len() + i] == t);
            assert(list[n - 1].done);
        }
        if all.contains(t) {
            let i = choose|i: int| 0 <= i < all.len() && all[i] == t;
            if i < front.len() {
                assert(front[i] == t);
            } else {
                assert(own[i - front.len()] == t);
            }
        }
        assert forall|i: int| 0 <= i < n && (#[trigger] list[i]).done && list[i].keep@.contains(t) implies all.contains(t) by {
            if i < n - 1 {
                assert(front.contains(t));
            }
        }
    }
}

/// Seizing keys takes their entries out of the cache, with their textures, and leaves the
/// others; a key without an entry takes nothing.
pub proof fn seizing_takes_the_keyed_textures(entries: Seq<TexEntry>, keys: Seq<TexKey>, n: nat, e: TexEntry)
    requires
        distinct_keys(entries),
        n <= keys.len(),
    ensures
        ({
            let (left, taken) = seize_spec(entries, keys, n);
            let wanted = exists|i: int| 0 <= i < n && #[trigger] keys[i] == e.key;
            &&& distinct_keys(left)
            &&& left.contains(e) <==> entries.contains(e) && !wanted
            &&& entries.contains(e) && wanted ==> taken.contains(e.tex)
        }),
    decreases n,
{
    if n > 0 {
        seizing_takes_the_keyed_textures(entries, keys, (n - 1) as nat, e);
        let (l, t) = seize_spec(entries, keys, (n - 1) as nat);
        let (left, taken) = seize_spec(entries, keys, n);
        let key = keys[n - 1];
        first_slot_is_lowest(l, keyed(key));
        match first_slot(l, keyed(key)) {
            Some(k) => {
                assert(left == l.remove(k) && taken == t.push(l[k].tex));
                assert(taken[t.len() as int] == l[k].tex);
                if t.contains(e.tex) {
                    let i = choose|i: int| 0 <= i < t.len() && t[i] == e.tex;
                    assert(taken[i] == e.tex);
                }
                if left.contains(e) {
                    let i = choose|i: int| 0 <= i < left.len() && left[i] == e;
                    assert(left[i] == l[if i < k { i } else { i + 1 }]);
                    assert(l.contains(e));
                    assert(e.key != key);
                }
                if l.contains(e) && e.key != key {
                    let i = choose|i: int| 0 <= i < l.len() && l[i] == e;
                    assert(i != k);
                    assert(left[if i < k { i } else { i - 1 }] == e);
                }
                if l.contains(e) && e.key == key {
                    let i = choose|i: int| 0 <= i < l.len() && l[i] == e;
                    assert(i == k) by {
                        if i < k {
                            assert(l[i].key != l[k].key);
                        } else if k < i {
                            assert(l[k].key != l[i].key);
                        }
                    }
                }
            },
            None => {
                if l.contains(e) {
                    let i = choose|i: int| 0 <= i < l.len() && l[i] == e;
                    assert(!keyed(key)(l[i]));
                }
            },
        }
        if e.key == key {
            assert(keys[n - 1] == e.key);
        }
    }
}

} // verus!
