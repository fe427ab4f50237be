//! What an arrangement of layer surfaces comes to: which edge a zone takes, how much of an
//! output is left for the windows, and where each surface lies.
use crate::shell::layer::{
    all_wf, arranged, bounds, claim, claimed_edge, is_edge, left_over, placed, spot, start_of, walk, Bounds, LayerState,
    LayerSurface, Layers, A_BOTTOM, A_LEFT, A_RIGHT, A_TOP, BACKGROUND, BOTTOM, OVERLAY, TOP,
};
use vstd::prelude::*;

verus! {

/// Anchored to an edge.
pub open spec fn held(s: LayerState, e: u32) -> bool {
    s.anchor & e != 0
}

pub open spec fn opposite(e: u32) -> u32 {
    if e == A_TOP {
        A_BOTTOM
    } else if e == A_BOTTOM {
        A_TOP
    } else if e == A_LEFT {
        A_RIGHT
    } else {
        A_LEFT
    }
}

/// The two edges that meet an edge.
pub open spec fn beside(e: u32) -> (u32, u32) {
    if e == A_TOP || e == A_BOTTOM { (A_LEFT, A_RIGHT) } else { (A_TOP, A_BOTTOM) }
}

/// A surface takes its zone off an edge: the one it names, else the one it is anchored to,
/// alone or with both that meet it. Without a positive zone it takes nothing.
pub open spec fn takes(s: LayerState, e: u32) -> bool {
    &&& s.exclusive > 0
    &&& if s.exclusive_edge != 0 {
        s.exclusive_edge == e
    } else {
        held(s, e) && !held(s, opposite(e)) && held(s, beside(e).0) == held(s, beside(e).1)
    }
}

/// How much it takes: its zone, and the margin it keeps to the edge.
pub open spec fn taken(s: LayerState, e: u32) -> int {
    s.exclusive + (if e == A_TOP {
        s.margin.top
    } else if e == A_BOTTOM {
        s.margin.bottom
    } else if e == A_LEFT {
        s.margin.left
    } else {
        s.margin.right
    })
}

/// A zone takes the edge that the surface is anchored to, whichever of the four it is: alone,
/// or with both edges that meet it. In a corner, between two opposite edges, without any
/// anchor and without a positive zone it takes none, and a named edge goes before all.
pub proof fn zones_take_the_anchored_edge(s: LayerState, e: u32)
    requires
        s.wf(),
        is_edge(e),
    ensures
        claimed_edge(s) == Some(e) <==> takes(s, e),
        claimed_edge(s) is None <==> !(takes(s, A_TOP) || takes(s, A_BOTTOM) || takes(s, A_LEFT) || takes(s, A_RIGHT)),
{
    let a = s.anchor;
    assert((a & 12 == 4 <==> a & 4 != 0 && a & 8 == 0) && (a & 12 == 8 <==> a & 8 != 0 && a & 4 == 0) && (a & 12 == 12
        <==> a & 4 != 0 && a & 8 != 0) && (a & 12 == 0 <==> a & 4 == 0 && a & 8 == 0) && (a & 3 == 1 <==> a & 1 != 0 && a & 2
        == 0) && (a & 3 == 2 <==> a & 2 != 0 && a & 1 == 0) && (a & 3 == 3 <==> a & 1 != 0 && a & 2 != 0) && (a & 3 == 0
        <==> a & 1 == 0 && a & 2 == 0)) by (bit_vector);
}

/// The mapped surface `l` of an output takes from an edge.
pub open spec fn takes_on(l: LayerSurface, slot: int, e: u32) -> bool {
    l.linked && l.output == slot && takes(l.current, e)
}

/// What the first `n` surfaces of an output take from an edge.
pub open spec fn total(list: Seq<LayerSurface>, slot: int, e: u32, n: nat) -> int
    decreases n,
{
    if n == 0 || n > list.len() {
        0
    } else {
        total(list, slot, e, (n - 1) as nat) + (if takes_on(list[n - 1], slot, e) { taken(list[n - 1].current, e) } else { 0 })
    }
}

/// What those among the first `n` take that are arranged before a surface of `layer` in slot
/// `i`: the ones on higher layers, and the earlier ones on its own.
pub open spec fn total_before(list: Seq<LayerSurface>, slot: int, layer: u32, i: int, e: u32, n: nat) -> int
    decreases n,
{
    if n == 0 || n > list.len() {
        0
    } else {
        let l = list[n - 1];
        total_before(list, slot, layer, i, e, (n - 1) as nat) + (if takes_on(l, slot, e) && (l.current.layer > layer || (
        l.current.layer == layer && n - 1 < i)) {
            taken(l.current, e)
        } else {
            0
        })
    }
}

/// The same on one layer.
spec fn on_layer(list: Seq<LayerSurface>, slot: int, layer: u32, e: u32, n: nat) -> int
    decreases n,
{
    if n == 0 || n > list.len() {
        0
    } else {
        on_layer(list, slot, layer, e, (n - 1) as nat) + (if takes_on(list[n - 1], slot, e) && list[n - 1].current.layer
            == layer {
            taken(list[n - 1].current, e)
        } else {
            0
        })
    }
}

/// A box with that much taken off each edge.
pub open spec fn less(b: Bounds, left: int, top: int, right: int, bottom: int) -> Bounds {
    Bounds { x1: b.x1 + left, y1: b.y1 + top, x2: b.x2 - right, y2: b.y2 - bottom }
}

proof fn one_claim(b: Bounds, s: LayerState)
    requires
        s.wf(),
    ensures
        claim(b, s) == less(
            b,
            if takes(s, A_LEFT) { taken(s, A_LEFT) } else { 0 },
            if takes(s, A_TOP) { taken(s, A_TOP) } else { 0 },
            if takes(s, A_RIGHT) { taken(s, A_RIGHT) } else { 0 },
            if takes(s, A_BOTTOM) { taken(s, A_BOTTOM) } else { 0 },
        ),
{
    zones_take_the_anchored_edge(s, A_TOP);
    zones_take_the_anchored_edge(s, A_BOTTOM);
    zones_take_the_anchored_edge(s, A_LEFT);
    zones_take_the_anchored_edge(s, A_RIGHT);
}

proof fn one_layer(list: Seq<LayerSurface>, slot: int, layer: u32, n: nat, b: Bounds)
    requires
        all_wf(list),
        n <= list.len(),
    ensures
        walk(list, slot, layer, n, b) == less(
            b,
            on_layer(list, slot, layer, A_LEFT, n),
            on_layer(list, slot, layer, A_TOP, n),
            on_layer(list, slot, layer, A_RIGHT, n),
            on_layer(list, slot, layer, A_BOTTOM, n),
        ),
    decreases n,
{
    if n > 0 {
        one_layer(list, slot, layer, (n - 1) as nat, b);
        assert(list[n - 1].wf());
        one_claim(walk(list, slot, layer, (n - 1) as nat, b), list[n - 1].current);
    }
}

proof fn layers_sum_up(list: Seq<LayerSurface>, slot: int, e: u32, n: nat)
    requires
        all_wf(list),
        n <= list.len(),
    ensures
        total(list, slot, e, n) == on_layer(list, slot, OVERLAY, e, n) + on_layer(list, slot, TOP, e, n) + on_layer(
            list,
            slot,
            BOTTOM,
            e,
            n,
        ) + on_layer(list, slot, BACKGROUND, e, n),
    decreases n,
{
    if n > 0 {
        layers_sum_up(list, slot, e, (n - 1) as nat);
        assert(list[n - 1].wf());
    }
}

/// What the layers above `layer` take.
spec fn above(list: Seq<LayerSurface>, slot: int, layer: u32, e: u32, n: nat) -> int
    decreases OVERLAY - layer,
{
    if layer >= OVERLAY {
        0
    } else {
        above(list, slot, (layer + 1) as u32, e, n) + on_layer(list, slot, (layer + 1) as u32, e, n)
    }
}

proof fn higher_layers(list: Seq<LayerSurface>, slot: int, layer: u32, out: Bounds)
    requires
        all_wf(list),
        layer <= OVERLAY,
    ensures
        start_of(list, slot, layer, out) == less(
            out,
            above(list, slot, layer, A_LEFT, list.len()),
            above(list, slot, layer, A_TOP, list.len()),
            above(list, slot, layer, A_RIGHT, list.len()),
            above(list, slot, layer, A_BOTTOM, list.len()),
        ),
    decreases OVERLAY - layer,
{
    if layer < OVERLAY {
        higher_layers(list, slot, (layer + 1) as u32, out);
        one_layer(list, slot, (layer + 1) as u32, list.len(), start_of(list, slot, (layer + 1) as u32, out));
    }
}

proof fn sum_before(list: Seq<LayerSurface>, slot: int, layer: u32, i: int, e: u32, n: nat)
    requires
        all_wf(list),
        layer <= OVERLAY,
        n <= list.len(),
        0 <= i,
    ensures
        total_before(list, slot, layer, i, e, n) == above(list, slot, layer, e, n) + on_layer(
            list,
            slot,
            layer,
            e,
            if n <= i { n } else { i as nat },
        ),
    decreases n,
{
    reveal_with_fuel(above, 5);
    if n > 0 {
        sum_before(list, slot, layer, i, e, (n - 1) as nat);
        assert(list[n - 1].wf());
    }
}

/// The tiling area of an output is the output less, on each edge, the zones and margins of all
/// the mapped surfaces that take that edge, summed up; where nothing would be left, it is the
/// whole output.
pub proof fn tiling_areas_are_what_zones_leave(a: Layers, list: Seq<LayerSurface>, b: Layers, k: int)
    requires
        all_wf(list),
        arranged(a, list, b),
        0 <= k < a.rects@.len(),
    ensures
        ({
            let out = bounds(a.rects@[k]);
            let n = list.len();
            let left = less(
                out,
                total(list, k, A_LEFT, n),
                total(list, k, A_TOP, n),
                total(list, k, A_RIGHT, n),
                total(list, k, A_BOTTOM, n),
            );
            bounds(b.usable@[k]) == (if left.x1 < left.x2 && left.y1 < left.y2 { left } else { out })
        }),
{
    area_left(list, k, bounds(a.rects@[k]));
}

proof fn area_left(list: Seq<LayerSurface>, k: int, out: Bounds)
    requires
        all_wf(list),
    ensures
        left_over(list, k, out) == less(
            out,
            total(list, k, A_LEFT, list.len()),
            total(list, k, A_TOP, list.len()),
            total(list, k, A_RIGHT, list.len()),
            total(list, k, A_BOTTOM, list.len()),
        ),
{
    let n = list.len();
    higher_layers(list, k, BACKGROUND, out);
    one_layer(list, k, BACKGROUND, n, start_of(list, k, BACKGROUND, out));
    reveal_with_fuel(above, 5);
    layers_sum_up(list, k, A_LEFT, n);
    layers_sum_up(list, k, A_TOP, n);
    layers_sum_up(list, k, A_RIGHT, n);
    layers_sum_up(list, k, A_BOTTOM, n);
}

/// A lone bar takes its zone and margin off the edge it is anchored to, and nothing off the
/// other three, whichever edge that is.
pub proof fn lone_bars_take_one_edge(a: Layers, list: Seq<LayerSurface>, b: Layers, i: int, e: u32)
    requires
        all_wf(list),
        arranged(a, list, b),
        0 <= i < list.len(),
        list[i].linked,
        list[i].output < a.rects@.len(),
        is_edge(e),
        takes(list[i].current, e),
        taken(list[i].current, e) >= 0,
        forall|j: int| 0 <= j < list.len() && j != i ==> !((#[trigger] list[j]).linked && list[j].output
            == list[i].output),
        taken(list[i].current, e) < (if e == A_TOP || e == A_BOTTOM {
            a.rects@[list[i].output as int].y2 - a.rects@[list[i].output as int].y1
        } else {
            a.rects@[list[i].output as int].x2 - a.rects@[list[i].output as int].x1
        }),
        a.rects@[list[i].output as int].x1 < a.rects@[list[i].output as int].x2,
        a.rects@[list[i].output as int].y1 < a.rects@[list[i].output as int].y2,
    ensures
        ({
            let out = a.rects@[list[i].output as int];
            let area = b.usable@[list[i].output as int];
            let t = taken(list[i].current, e);
            &&& area.x1 == out.x1 + (if e == A_LEFT { t } else { 0 })
            &&& area.y1 == out.y1 + (if e == A_TOP { t } else { 0 })
            &&& area.x2 == out.x2 - (if e == A_RIGHT { t } else { 0 })
            &&& area.y2 == out.y2 - (if e == A_BOTTOM { t } else { 0 })
        }),
{
    let k = list[i].output as int;
    let n = list.len();
    tiling_areas_are_what_zones_leave(a, list, b, k);
    assert(list[i].wf());
    let s = list[i].current;
    zones_take_the_anchored_edge(s, A_TOP);
    zones_take_the_anchored_edge(s, A_BOTTOM);
    zones_take_the_anchored_edge(s, A_LEFT);
    zones_take_the_anchored_edge(s, A_RIGHT);
    lone_total(list, k, A_LEFT, i, n);
    lone_total(list, k, A_TOP, i, n);
    lone_total(list, k, A_RIGHT, i, n);
    lone_total(list, k, A_BOTTOM, i, n);
}

proof fn lone_total(list: Seq<LayerSurface>, slot: int, e: u32, i: int, n: nat)
    requires
        n <= list.len(),
        0 <= i < list.len(),
        forall|j: int| 0 <= j < list.len() && j != i ==> !((#[trigger] list[j]).linked && list[j].output == slot),
    ensures
        total(list, slot, e, n) == (if i < n && takes_on(list[i], slot, e) { taken(list[i].current, e) } else { 0 }),
    decreases n,
{
    if n > 0 {
        lone_total(list, slot, e, i, (n - 1) as nat);
        if n - 1 != i {
            assert(!(list[n - 1].linked && list[n - 1].output == slot));
        }
    }
}

/// Between two edges a surface lies as its anchors say: of its own size, or over all the room
/// inside the margins where it has none, at least one wide; at the one edge it is held to,
/// else in the middle, to the pixel.
pub open spec fn lies(from: int, to: int, lo: int, hi: int, size: u32, low: bool, high: bool, near: int, far: int) -> bool {
    let a = if low { lo + near } else { lo };
    let b = if high { hi - far } else { hi };
    &&& from < to
    &&& size > 0 ==> to - from == size
    &&& size == 0 && b > a ==> to - from == b - a
    &&& size == 0 && b <= a ==> to - from == 1
    &&& low && !high ==> from == a
    &&& high && !low ==> to == b
    &&& low == high ==> -1 <= (from - a) - (b - to) <= 1
}

/// Every mapped surface lies where it is anchored, by its size and margins: one that takes an
/// edge in what those arranged before it leave, one with a zone of minus one in the whole
/// output, any other in the tiling area.
pub proof fn surfaces_lie_where_they_are_anchored(a: Layers, list: Seq<LayerSurface>, b: Layers, i: int)
    requires
        all_wf(list),
        arranged(a, list, b),
        0 <= i < list.len(),
        list[i].linked,
        list[i].output < a.rects@.len(),
    ensures
        ({
            let s = list[i].current;
            let k = list[i].output as int;
            let out = bounds(a.rects@[k]);
            let n = list.len();
            let box_of = if takes(s, A_TOP) || takes(s, A_BOTTOM) || takes(s, A_LEFT) || takes(s, A_RIGHT) {
                less(
                    out,
                    total_before(list, k, s.layer, i, A_LEFT, n),
                    total_before(list, k, s.layer, i, A_TOP, n),
                    total_before(list, k, s.layer, i, A_RIGHT, n),
                    total_before(list, k, s.layer, i, A_BOTTOM, n),
                )
            } else if s.exclusive >= 0 {
                bounds(b.usable@[k])
            } else {
                out
            };
            let r = b.list@[i].rect;
            &&& lies(
                r.x1 as int,
                r.x2 as int,
                box_of.x1,
                box_of.x2,
                s.size.0,
                held(s, A_LEFT),
                held(s, A_RIGHT),
                s.margin.left as int,
                s.margin.right as int,
            )
            &&& lies(
                r.y1 as int,
                r.y2 as int,
                box_of.y1,
                box_of.y2,
                s.size.1,
                held(s, A_TOP),
                held(s, A_BOTTOM),
                s.margin.top as int,
                s.margin.bottom as int,
            )
        }),
{
    let s = list[i].current;
    let k = list[i].output as int;
    let out = bounds(a.rects@[k]);
    let n = list.len();
    assert(list[i].wf());
    let m = b.list@[i];
    assert(bounds(m.rect) == spot(list, k, out, i));
    zones_take_the_anchored_edge(s, A_TOP);
    higher_layers(list, k, s.layer, out);
    one_layer(list, k, s.layer, i as nat, start_of(list, k, s.layer, out));
    sum_before(list, k, s.layer, i, A_LEFT, n);
    sum_before(list, k, s.layer, i, A_TOP, n);
    sum_before(list, k, s.layer, i, A_RIGHT, n);
    sum_before(list, k, s.layer, i, A_BOTTOM, n);
    let room = walk(list, k, s.layer, i as nat, start_of(list, k, s.layer, out));
    assert(room == less(
        out,
        total_before(list, k, s.layer, i, A_LEFT, n),
        total_before(list, k, s.layer, i, A_TOP, n),
        total_before(list, k, s.layer, i, A_RIGHT, n),
        total_before(list, k, s.layer, i, A_BOTTOM, n),
    ));
    placed_lies(s, room);
    placed_lies(s, bounds(b.usable@[k]));
    placed_lies(s, out);
}

proof fn placed_lies(s: LayerState, b: Bounds)
    ensures
        ({
            let r = placed(s, b);
            &&& lies(
                r.x1,
                r.x2,
                b.x1,
                b.x2,
                s.size.0,
                held(s, A_LEFT),
                held(s, A_RIGHT),
                s.margin.left as int,
                s.margin.right as int,
            )
            &&& lies(
                r.y1,
                r.y2,
                b.y1,
                b.y2,
                s.size.1,
                held(s, A_TOP),
                held(s, A_BOTTOM),
                s.margin.top as int,
                s.margin.bottom as int,
            )
        }),
{
    let x = s.anchor;
    assert((x & 12 == 4 <==> x & 4 != 0 && x & 8 == 0) && (x & 12 == 8 <==> x & 8 != 0 && x & 4 == 0) && (x & 3 == 1 <==> x
        & 1 != 0 && x & 2 == 0) && (x & 3 == 2 <==> x & 2 != 0 && x & 1 == 0)) by (bit_vector);
}

} // verus!
