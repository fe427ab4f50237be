//! Who is painted above whom: which batches a frame holds, in which order.
use crate::output::closing::{window_inner, windows_are_bracketed};
use crate::output::compose::{
    animating_items, below_items, claimed, closing_items, cursor_items, drag_items, frame_items, frame_ws, layer_items,
    layer_popup_items, screen_pen, shadow_items, stage_spec, switched_items, top_items, CapCursor, window_border_items,
    window_items, window_pen, window_popup_items, windows_items, workspace_items, LayerNode, Scene, Stage, WindowNode,
    WorkspaceNode, BACKGROUND, BOTTOM, OVERLAY, TOP,
};
use crate::output::scene::{
    buffer_items, feedback_items, no_claim, popup_items, popups_items, subs_items, tree_items, Item, Owner, Pen, PopupNode, SubNode,
    SurfaceNode,
};
use crate::output::textures::TexEntry;
use crate::output::{Display, Output};
use crate::protocol::session_lock::LockSlot;
use vstd::prelude::*;

verus! {

/// What gives a frame its shape: where batches begin and end, the stashed batches that are
/// replayed, and the cursor.
pub open spec fn shapes() -> spec_fn(Item) -> bool {
    |i: Item| i is Open || i is Close || i is Replay || i is Cursor
}

/// The shape of a paint list.
pub open spec fn shape(items: Seq<Item>) -> Seq<Item> {
    items.filter(shapes())
}

/// A batch for each owner, one after the other.
pub open spec fn batches(owners: Seq<Owner>) -> Seq<Item> {
    Seq::new(2 * owners.len(), |k: int| if k % 2 == 0 { Item::Open(owners[k / 2]) } else { Item::Close })
}

/// Stashed batches, one after the other.
pub open spec fn replays(ids: Seq<u64>) -> Seq<Item> {
    ids.map_values(|id: u64| Item::Replay(id))
}

pub open spec fn is_mapped() -> spec_fn(WindowNode) -> bool {
    |w: WindowNode| w.surface.info.mapped
}

/// The windows that are mapped, in order.
pub open spec fn mapped(ws: Seq<WindowNode>) -> Seq<Owner> {
    ws.filter(is_mapped()).map_values(|w: WindowNode| Owner::Window(w.id))
}

pub open spec fn is_bar(slot: usize, layer: u32) -> spec_fn(LayerNode) -> bool {
    |l: LayerNode| l.mapped && l.output == slot && l.layer == layer
}

/// The surfaces of a layer that are mapped on an output, in order.
pub open spec fn bars(ls: Seq<LayerNode>, slot: usize, layer: u32) -> Seq<Owner> {
    ls.filter(is_bar(slot, layer)).map_values(|l: LayerNode| Owner::Layer(l.id))
}

/// Nothing that gives a frame its shape.
pub open spec fn plain(items: Seq<Item>) -> bool {
    forall|i: int| 0 <= i < items.len() ==> !shapes()(#[trigger] items[i])
}

proof fn plain_has_no_shape(items: Seq<Item>)
    requires
        plain(items),
    ensures
        shape(items) == Seq::<Item>::empty(),
{
    items.lemma_all_neg_filter_empty(shapes());
}

proof fn shape_adds(a: Seq<Item>, b: Seq<Item>)
    ensures
        shape(a + b) == shape(a) + shape(b),
{
    Seq::filter_distributes_over_add(a, b, shapes());
}

proof fn shape_of_one(i: Item)
    ensures
        shape(seq![i]) == (if shapes()(i) { seq![i] } else { Seq::empty() }),
{
    reveal(Seq::filter);
    assert(seq![i].drop_last() =~= Seq::<Item>::empty());
    assert(seq![i].last() == i);
    assert(Seq::<Item>::empty().filter(shapes()) =~= Seq::empty());
    assert(shape(seq![i]) =~= (if shapes()(i) { seq![i] } else { Seq::empty() }));
}

proof fn claims_shape_nothing(items: Seq<Item>)
    ensures
        shape(items.filter(no_claim())) == shape(items),
    decreases items.len(),
{
    reveal(Seq::filter);
    if items.len() > 0 {
        let rest = items.drop_last();
        claims_shape_nothing(rest);
        assert(items =~= rest + seq![items.last()]);
        shape_adds(rest, seq![items.last()]);
        shape_of_one(items.last());
        Seq::filter_distributes_over_add(rest, seq![items.last()], no_claim());
        assert(seq![items.last()].drop_last() =~= Seq::<Item>::empty());
        assert(seq![items.last()].filter(no_claim()) =~= (if no_claim()(items.last()) {
            seq![items.last()]
        } else {
            Seq::empty()
        }));
        shape_adds(rest.filter(no_claim()), seq![items.last()].filter(no_claim()));
        plain_has_no_shape(Seq::empty());
    }
}

proof fn trees_are_plain(p: Pen, entries: Seq<TexEntry>, n: SurfaceNode, x: int, y: int)
    ensures
        plain(tree_items(p, entries, n, x, y)),
    decreases n, 0nat,
{
    if n.info.mapped {
        subs_are_plain(p, entries, n.below@, n.below@.len(), x, y);
        subs_are_plain(p, entries, n.above@, n.above@.len(), x, y);
        assert(plain(feedback_items(n.latched@)));
        assert(plain(buffer_items(p, entries, n.info, x, y)));
    }
}

proof fn subs_are_plain(p: Pen, entries: Seq<TexEntry>, subs: Seq<SubNode>, n: nat, x: int, y: int)
    ensures
        plain(subs_items(p, entries, subs, n, x, y)),
    decreases subs, n,
{
    if n > 0 && n <= subs.len() {
        let s = subs[n - 1];
        subs_are_plain(p, entries, subs, (n - 1) as nat, x, y);
        if !s.pending {
            trees_are_plain(p, entries, s.surface, x + s.pos.0, y + s.pos.1);
        }
    }
}

proof fn popup_is_plain(p: Pen, entries: Seq<TexEntry>, n: PopupNode, ox: int, oy: int)
    ensures
        plain(popup_items(p, entries, n, ox, oy)),
    decreases n, 0nat,
{
    if n.surface.info.mapped {
        trees_are_plain(p, entries, n.surface, ox + n.rel.0 - n.geo.0, oy + n.rel.1 - n.geo.1);
        popups_are_plain(p, entries, n.popups@, n.popups@.len(), ox + n.rel.0, oy + n.rel.1);
    }
}

proof fn popups_are_plain(p: Pen, entries: Seq<TexEntry>, ps: Seq<PopupNode>, n: nat, ox: int, oy: int)
    ensures
        plain(popups_items(p, entries, ps, n, ox, oy)),
    decreases ps, n,
{
    if n > 0 && n <= ps.len() {
        popups_are_plain(p, entries, ps, (n - 1) as nat, ox, oy);
        popup_is_plain(p, entries, ps[n - 1], ox, oy);
    }
}

proof fn plain_together(a: Seq<Item>, b: Seq<Item>)
    requires
        plain(a),
        plain(b),
    ensures
        plain(a + b),
{
}

proof fn windows_are_plain_inside(v: Stage, entries: Seq<TexEntry>, w: WindowNode)
    ensures
        plain(window_inner(v, entries, w)),
{
    let (a, b, c) = (animating_items(w.animating), shadow_items(v.pos, v.cfg, w), window_border_items(v, w));
    let t = tree_items(
        window_pen(v.pos, v.cfg, w),
        entries,
        w.surface,
        w.rect.x1 - w.geo.0,
        w.rect.y1 - w.geo.1,
    );
    let p = window_popup_items(v, entries, w);
    assert(plain(a) && plain(b) && plain(c));
    trees_are_plain(window_pen(v.pos, v.cfg, w), entries, w.surface, w.rect.x1 - w.geo.0, w.rect.y1 - w.geo.1);
    if w.popups is Some {
        let ps = w.popups->0;
        popups_are_plain(screen_pen(v.pos, v.screen), entries, ps@, ps@.len(), w.rect.x1 as int, w.rect.y1 as int);
    }
    plain_together(a, b);
    plain_together(a + b, c);
    plain_together(a + b + c, t);
    plain_together(a + b + c + t, p);
}

proof fn bracketed_shape(owner: Owner, inner: Seq<Item>)
    requires
        plain(inner),
    ensures
        shape(seq![Item::Open(owner)] + inner + seq![Item::Close]) == seq![Item::Open(owner), Item::Close],
{
    shape_of_one(Item::Open(owner));
    shape_of_one(Item::Close);
    plain_has_no_shape(inner);
    shape_adds(seq![Item::Open(owner)], inner);
    shape_adds(seq![Item::Open(owner)] + inner, seq![Item::Close]);
    assert(shape(seq![Item::Open(owner)] + inner + seq![Item::Close]) =~= seq![Item::Open(owner), Item::Close]);
}

proof fn one_more_batch(owners: Seq<Owner>, o: Owner)
    ensures
        batches(owners.push(o)) == batches(owners) + seq![Item::Open(o), Item::Close],
{
    assert(batches(owners.push(o)) =~= batches(owners) + seq![Item::Open(o), Item::Close]);
}

proof fn one_more_window(front: Seq<WindowNode>, w: WindowNode)
    ensures
        mapped(front.push(w)) == (if w.surface.info.mapped { mapped(front).push(Owner::Window(w.id)) } else { mapped(front) }),
{
    reveal(Seq::filter);
    assert(front.push(w).drop_last() =~= front);
    if w.surface.info.mapped {
        assert(front.push(w).filter(is_mapped()) =~= front.filter(is_mapped()).push(w));
        assert(mapped(front.push(w)) =~= mapped(front).push(Owner::Window(w.id)));
    } else {
        assert(front.push(w).filter(is_mapped()) =~= front.filter(is_mapped()));
    }
}

proof fn one_more_bar(front: Seq<LayerNode>, l: LayerNode, slot: usize, layer: u32)
    ensures
        bars(front.push(l), slot, layer) == (if is_bar(slot, layer)(l) {
            bars(front, slot, layer).push(Owner::Layer(l.id))
        } else {
            bars(front, slot, layer)
        }),
{
    reveal(Seq::filter);
    let keep = is_bar(slot, layer);
    assert(front.push(l).drop_last() =~= front);
    if keep(l) {
        assert(front.push(l).filter(keep) =~= front.filter(keep).push(l));
        assert(bars(front.push(l), slot, layer) =~= bars(front, slot, layer).push(Owner::Layer(l.id)));
    } else {
        assert(front.push(l).filter(keep) =~= front.filter(keep));
    }
}

proof fn nothing_shown()
    ensures
        batches(mapped(Seq::empty())) == Seq::<Item>::empty(),
        forall|slot: usize, layer: u32| batches(#[trigger] bars(Seq::empty(), slot, layer)) == Seq::<Item>::empty(),
        shape(Seq::empty()) == Seq::<Item>::empty(),
{
    reveal(Seq::filter);
    plain_has_no_shape(Seq::empty());
    assert(batches(mapped(Seq::empty())) =~= Seq::<Item>::empty());
    assert forall|slot: usize, layer: u32| batches(#[trigger] bars(Seq::empty(), slot, layer)) == Seq::<Item>::empty() by {
        assert(batches(bars(Seq::empty(), slot, layer)) =~= Seq::<Item>::empty());
    }
}

proof fn window_shape(v: Stage, entries: Seq<TexEntry>, w: WindowNode)
    ensures
        shape(window_items(v, entries, w)) == (if w.surface.info.mapped {
            seq![Item::Open(Owner::Window(w.id)), Item::Close]
        } else {
            Seq::empty()
        }),
{
    if w.surface.info.mapped {
        windows_are_bracketed(v, entries, w);
        windows_are_plain_inside(v, entries, w);
        bracketed_shape(Owner::Window(w.id), window_inner(v, entries, w));
    } else {
        nothing_shown();
    }
}

proof fn windows_shape(v: Stage, entries: Seq<TexEntry>, ws: Seq<WindowNode>, n: nat)
    requires
        n <= ws.len(),
    ensures
        shape(windows_items(v, entries, ws, n)) == batches(mapped(ws.take(n as int))),
    decreases n,
{
    if n == 0 {
        nothing_shown();
        assert(ws.take(0) =~= Seq::empty());
    } else {
        let w = ws[n - 1];
        let front = ws.take(n - 1);
        windows_shape(v, entries, ws, (n - 1) as nat);
        window_shape(v, entries, w);
        shape_adds(windows_items(v, entries, ws, (n - 1) as nat), window_items(v, entries, w));
        assert(ws.take(n as int) =~= front.push(w));
        one_more_window(front, w);
        if w.surface.info.mapped {
            one_more_batch(mapped(front), Owner::Window(w.id));
        } else {
            assert(batches(mapped(front)) + Seq::<Item>::empty() =~= batches(mapped(front)));
        }
    }
}

/// What a surface of a layer paints.
pub open spec fn bar_items(v: Stage, entries: Seq<TexEntry>, l: LayerNode) -> Seq<Item> {
    seq![Item::Open(Owner::Layer(l.id))] + tree_items(
        screen_pen(v.pos, v.screen),
        entries,
        l.surface,
        l.rect.x1 as int,
        l.rect.y1 as int,
    ) + (if l.animating { seq![Item::Animating] } else { Seq::empty() }) + seq![Item::Close]
}

proof fn bar_shape(v: Stage, entries: Seq<TexEntry>, l: LayerNode)
    ensures
        shape(bar_items(v, entries, l)) == seq![Item::Open(Owner::Layer(l.id)), Item::Close],
{
    let t = tree_items(screen_pen(v.pos, v.screen), entries, l.surface, l.rect.x1 as int, l.rect.y1 as int);
    let an = if l.animating { seq![Item::Animating] } else { Seq::empty() };
    trees_are_plain(screen_pen(v.pos, v.screen), entries, l.surface, l.rect.x1 as int, l.rect.y1 as int);
    plain_together(t, an);
    bracketed_shape(Owner::Layer(l.id), t + an);
    let o = seq![Item::Open(Owner::Layer(l.id))];
    let c = seq![Item::Close];
    assert(o + t + an + c =~= o + (t + an) + c);
}

proof fn layers_shape(v: Stage, entries: Seq<TexEntry>, ls: Seq<LayerNode>, slot: usize, layer: u32, n: nat)
    requires
        n <= ls.len(),
    ensures
        shape(layer_items(v, entries, ls, slot, layer, n)) == batches(bars(ls.take(n as int), slot, layer)),
    decreases n,
{
    if n == 0 {
        nothing_shown();
        assert(ls.take(0) =~= Seq::empty());
    } else {
        let l = ls[n - 1];
        let front = ls.take(n - 1);
        let before = layer_items(v, entries, ls, slot, layer, (n - 1) as nat);
        layers_shape(v, entries, ls, slot, layer, (n - 1) as nat);
        assert(ls.take(n as int) =~= front.push(l));
        one_more_bar(front, l, slot, layer);
        if is_bar(slot, layer)(l) {
            bar_shape(v, entries, l);
            shape_adds(before, bar_items(v, entries, l));
            assert(layer_items(v, entries, ls, slot, layer, n) == before + bar_items(v, entries, l));
            one_more_batch(bars(front, slot, layer), Owner::Layer(l.id));
        } else {
            assert(before + Seq::<Item>::empty() =~= before);
        }
    }
}

proof fn closings_shape(ids: Seq<u64>)
    ensures
        shape(closing_items(ids)) == replays(ids),
    decreases ids.len(),
{
    if ids.len() == 0 {
        plain_has_no_shape(closing_items(ids));
        assert(replays(ids) =~= Seq::empty());
    } else {
        let rest = ids.drop_last();
        closings_shape(rest);
        let a = seq![Item::Replay(ids.last())];
        let b = seq![Item::Animating];
        assert(closing_items(ids) =~= closing_items(rest) + (a + b));
        shape_of_one(Item::Replay(ids.last()));
        shape_of_one(Item::Animating);
        shape_adds(a, b);
        shape_adds(closing_items(rest), a + b);
        assert(replays(ids) =~= replays(rest) + a);
        assert(a + Seq::<Item>::empty() =~= a);
    }
}

proof fn layer_popups_are_plain(v: Stage, entries: Seq<TexEntry>, ls: Seq<LayerNode>, slot: usize, fs: bool, n: nat)
    ensures
        plain(layer_popup_items(v, entries, ls, slot, fs, n)),
    decreases n,
{
    if n > 0 {
        let l = ls[n - 1];
        layer_popups_are_plain(v, entries, ls, slot, fs, (n - 1) as nat);
        popups_are_plain(
            screen_pen(v.pos, v.screen),
            entries,
            l.popups@,
            l.popups@.len(),
            l.rect.x1 as int,
            l.rect.y1 as int,
        );
    }
}

/// The shape of a workspace without a fullscreen window: its mapped tiles and the tiles that
/// are closing, as one strip while it moves, then its mapped floats.
pub open spec fn tiles_then_floats(ws: WorkspaceNode) -> Seq<Item> {
    let tiles = batches(mapped(ws.tiled@)) + replays(ws.closing@);
    (if ws.strip_moving { seq![Item::Open(Owner::Strip)] + tiles + seq![Item::Close] } else { tiles }) + batches(
        mapped(ws.floats@),
    )
}

/// The shape of a workspace with a fullscreen window: that window, and the mapped floats
/// only where they are kept above it.
pub open spec fn fullscreen_then_floats(f: WindowNode, floats: Seq<WindowNode>, above: bool) -> Seq<Item> {
    batches(mapped(seq![f])) + (if above { batches(mapped(floats)) } else { Seq::empty() })
}

/// Tiles are painted below floats, and a fullscreen window in place of the tiles.
proof fn workspaces_shape(v: Stage, entries: Seq<TexEntry>, ws: WorkspaceNode)
    ensures
        ws.fullscreen is None ==> shape(workspace_items(v, entries, ws)) == tiles_then_floats(ws),
        ws.fullscreen is Some ==> shape(workspace_items(v, entries, ws)) == fullscreen_then_floats(
            ws.fullscreen->0,
            ws.floats@,
            v.cfg.float_above_fullscreen,
        ),
{
    windows_shape(v, entries, ws.tiled@, ws.tiled@.len());
    windows_shape(v, entries, ws.floats@, ws.floats@.len());
    assert(ws.tiled@.take(ws.tiled@.len() as int) =~= ws.tiled@);
    assert(ws.floats@.take(ws.floats@.len() as int) =~= ws.floats@);
    closings_shape(ws.closing@);
    plain_has_no_shape(Seq::empty());
    let none = Seq::<Item>::empty();
    let tiles = windows_items(v, entries, ws.tiled@, ws.tiled@.len());
    let floats = windows_items(v, entries, ws.floats@, ws.floats@.len());
    let strip = tiles + closing_items(ws.closing@);
    shape_adds(tiles, closing_items(ws.closing@));
    if let Some(f) = ws.fullscreen {
        let one = seq![f];
        windows_shape(v, entries, one, 1);
        assert(one.take(1) =~= one);
        let w = window_items(v, entries, f);
        reveal_with_fuel(windows_items, 2);
        assert(windows_items(v, entries, one, 1) =~= w);
        if v.cfg.float_above_fullscreen {
            assert(workspace_items(v, entries, ws) =~= w + floats);
            shape_adds(w, floats);
        } else {
            assert(workspace_items(v, entries, ws) =~= w);
            assert(shape(w) + none =~= shape(w));
        }
    } else {
        if ws.strip_moving {
            let o = seq![Item::Open(Owner::Strip)];
            let c = seq![Item::Close];
            let a = seq![Item::Animating];
            shape_of_one(Item::Open(Owner::Strip));
            shape_of_one(Item::Close);
            shape_of_one(Item::Animating);
            assert(workspace_items(v, entries, ws) =~= o + strip + c + a + floats);
            shape_adds(o, strip);
            shape_adds(o + strip, c);
            shape_adds(o + strip + c, a);
            shape_adds(o + strip + c + a, floats);
            assert(shape(workspace_items(v, entries, ws)) =~= tiles_then_floats(ws));
        } else {
            assert(workspace_items(v, entries, ws) =~= strip + floats);
            shape_adds(strip, floats);
        }
    }
}

proof fn full_layer(v: Stage, entries: Seq<TexEntry>, ls: Seq<LayerNode>, slot: usize, layer: u32)
    ensures
        shape(layer_items(v, entries, ls, slot, layer, ls.len())) == batches(bars(ls, slot, layer)),
{
    layers_shape(v, entries, ls, slot, layer, ls.len());
    assert(ls.take(ls.len() as int) =~= ls);
}

proof fn shape_of_seven(a: Seq<Item>, b: Seq<Item>, c: Seq<Item>, d: Seq<Item>, e: Seq<Item>, f: Seq<Item>, g: Seq<Item>)
    ensures
        shape(a + b + c + d + e + f + g) == shape(a) + shape(b) + shape(c) + shape(d) + shape(e) + shape(f) + shape(g),
{
    shape_adds(a, b);
    shape_adds(a + b, c);
    shape_adds(a + b + c, d);
    shape_adds(a + b + c + d, e);
    shape_adds(a + b + c + d + e, f);
    shape_adds(a + b + c + d + e + f, g);
}

proof fn shape_of_five(a: Seq<Item>, b: Seq<Item>, c: Seq<Item>, d: Seq<Item>, e: Seq<Item>, f: Seq<Item>, g: Seq<Item>)
    requires
        shape(e) == Seq::<Item>::empty(),
        shape(f) == Seq::<Item>::empty(),
    ensures
        shape(a + b + c + d + e + f + g) == shape(a) + shape(b) + shape(c) + shape(d) + shape(g),
{
    shape_of_seven(a, b, c, d, e, f, g);
    let all = shape(a) + shape(b) + shape(c) + shape(d);
    assert(all + Seq::<Item>::empty() =~= all);
}

/// The layers around the windows; fullscreen hides them.
proof fn surroundings_shape(s: Scene, v: Stage, entries: Seq<TexEntry>, slot: usize, ws: WorkspaceNode)
    ensures
        ws.fullscreen is None ==> {
            &&& shape(below_items(s, v, entries, slot, ws)) == batches(bars(s.layers@, slot, BACKGROUND)) + batches(
                bars(s.layers@, slot, BOTTOM),
            )
            &&& shape(top_items(s, v, entries, slot, ws)) == batches(bars(s.layers@, slot, TOP)) + replays(s.closing_layers@)
        },
        ws.fullscreen is Some ==> {
            &&& shape(below_items(s, v, entries, slot, ws)) == Seq::<Item>::empty()
            &&& shape(top_items(s, v, entries, slot, ws)) == Seq::<Item>::empty()
        },
{
    let ls = s.layers@;
    let n = ls.len();
    full_layer(v, entries, ls, slot, BACKGROUND);
    full_layer(v, entries, ls, slot, BOTTOM);
    full_layer(v, entries, ls, slot, TOP);
    closings_shape(s.closing_layers@);
    plain_has_no_shape(Seq::empty());
    shape_adds(layer_items(v, entries, ls, slot, BACKGROUND, n), layer_items(v, entries, ls, slot, BOTTOM, n));
    shape_adds(layer_items(v, entries, ls, slot, TOP, n), closing_items(s.closing_layers@));
}

proof fn drags_are_plain(s: Scene, v: Stage, entries: Seq<TexEntry>, side: bool)
    ensures
        plain(drag_items(s, v, entries, side)),
{
    if let (Some(dr), Some(p)) = (s.drag, s.pointer) {
        trees_are_plain(screen_pen(v.pos, v.screen), entries, dr.surface, p.0 + dr.off.0, p.1 + dr.off.1);
    }
}

proof fn cursors_are_themselves(d: Display, slot: usize, pointer: Option<(i32, i32)>, mode: CapCursor)
    ensures
        shape(cursor_items(d, slot, pointer, mode)) == cursor_items(d, slot, pointer, mode),
{
    let cur = cursor_items(d, slot, pointer, mode);
    if cur.len() > 0 {
        shape_of_one(cur[0]);
        assert(cur =~= seq![cur[0]]);
    } else {
        plain_has_no_shape(cur);
        assert(cur =~= Seq::empty());
    }
}

/// Popups and a drag icon open no batch; a cursor is just itself.
proof fn rest_shapes(
    s: Scene,
    d: Display,
    v: Stage,
    entries: Seq<TexEntry>,
    slot: usize,
    mode: CapCursor,
    fs: bool,
    side: bool,
)
    ensures
        shape(layer_popup_items(v, entries, s.layers@, slot, fs, s.layers@.len())) == Seq::<Item>::empty(),
        shape(drag_items(s, v, entries, side)) == Seq::<Item>::empty(),
        shape(cursor_items(d, slot, s.pointer, mode)) == cursor_items(d, slot, s.pointer, mode),
{
    layer_popups_are_plain(v, entries, s.layers@, slot, fs, s.layers@.len());
    plain_has_no_shape(layer_popup_items(v, entries, s.layers@, slot, fs, s.layers@.len()));
    drags_are_plain(s, v, entries, side);
    plain_has_no_shape(drag_items(s, v, entries, side));
    cursors_are_themselves(d, slot, s.pointer, mode);
}

proof fn frame_parts(
    s: Scene,
    d: Display,
    lock: LockSlot,
    entries: Seq<TexEntry>,
    slot: usize,
    mode: CapCursor,
    ws_override: Option<usize>,
)
    requires
        lock.lock is None,
        frame_ws(d.outputs@[slot as int], ws_override) < s.workspaces@.len(),
    ensures
        ({
            let o = d.outputs@[slot as int];
            let ws = s.workspaces@[frame_ws(o, ws_override) as int];
            let v = stage_spec(o, s.focused, s.cfg);
            shape(claimed(frame_items(s, d, lock, entries, slot, mode, ws_override), mode)) == shape(
                below_items(s, v, entries, slot, ws),
            ) + shape(switched_items(s, v, o, entries, ws)) + shape(top_items(s, v, entries, slot, ws)) + batches(
                bars(s.layers@, slot, OVERLAY),
            ) + cursor_items(d, slot, s.pointer, mode)
        }),
{
    let o = d.outputs@[slot as int];
    let ws = s.workspaces@[frame_ws(o, ws_override) as int];
    let v = stage_spec(o, s.focused, s.cfg);
    let n = s.layers@.len();
    let side = ws_override is Some;
    claims_shape_nothing(frame_items(s, d, lock, entries, slot, mode, ws_override));
    full_layer(v, entries, s.layers@, slot, OVERLAY);
    rest_shapes(s, d, v, entries, slot, mode, ws.fullscreen is Some, side);
    shape_of_five(
        below_items(s, v, entries, slot, ws),
        switched_items(s, v, o, entries, ws),
        top_items(s, v, entries, slot, ws),
        layer_items(v, entries, s.layers@, slot, OVERLAY, n),
        layer_popup_items(v, entries, s.layers@, slot, ws.fullscreen is Some, n),
        drag_items(s, v, entries, side),
        cursor_items(d, slot, s.pointer, mode),
    );
}

proof fn glue_top(a: Seq<Item>, b: Seq<Item>, t: Seq<Item>, r: Seq<Item>, o: Seq<Item>, c: Seq<Item>)
    ensures
        a + b + (t + r) + o + c == a + b + t + r + o + c,
        Seq::<Item>::empty() + b + Seq::<Item>::empty() + o + c == b + o + c,
{
    assert(a + b + (t + r) =~= a + b + t + r);
    assert(Seq::<Item>::empty() + b + Seq::<Item>::empty() =~= b);
}

proof fn frames_shape(
    s: Scene,
    d: Display,
    lock: LockSlot,
    entries: Seq<TexEntry>,
    slot: usize,
    mode: CapCursor,
    ws_override: Option<usize>,
)
    requires
        lock.lock is None,
        frame_ws(d.outputs@[slot as int], ws_override) < s.workspaces@.len(),
    ensures
        ({
            let o = d.outputs@[slot as int];
            let ws = s.workspaces@[frame_ws(o, ws_override) as int];
            let v = stage_spec(o, s.focused, s.cfg);
            let ls = s.layers@;
            let items = claimed(frame_items(s, d, lock, entries, slot, mode, ws_override), mode);
            let inner = shape(switched_items(s, v, o, entries, ws));
            &&& ws.fullscreen is None ==> shape(items) == batches(bars(ls, slot, BACKGROUND)) + batches(bars(ls, slot, BOTTOM))
                + inner + batches(bars(ls, slot, TOP)) + replays(s.closing_layers@) + batches(bars(ls, slot, OVERLAY))
                + cursor_items(d, slot, s.pointer, mode)
            &&& ws.fullscreen is Some ==> shape(items) == inner + batches(bars(ls, slot, OVERLAY)) + cursor_items(
                d,
                slot,
                s.pointer,
                mode,
            )
        }),
{
    let o = d.outputs@[slot as int];
    let ws = s.workspaces@[frame_ws(o, ws_override) as int];
    let v = stage_spec(o, s.focused, s.cfg);
    let ls = s.layers@;
    frame_parts(s, d, lock, entries, slot, mode, ws_override);
    surroundings_shape(s, v, entries, slot, ws);
    glue_top(
        batches(bars(ls, slot, BACKGROUND)) + batches(bars(ls, slot, BOTTOM)),
        shape(switched_items(s, v, o, entries, ws)),
        batches(bars(ls, slot, TOP)),
        replays(s.closing_layers@),
        batches(bars(ls, slot, OVERLAY)),
        cursor_items(d, slot, s.pointer, mode),
    );
}

/// A frame of a workspace without a fullscreen window holds, from bottom to top: a batch for
/// each surface of the background and of the bottom layer, for each mapped tile, for each
/// mapped float, then for each surface of the top and of the overlay layer; what is closing
/// is replayed above its peers, and the cursor is last. Each is there once.
pub proof fn frames_stack_tiles_below_floats(
    s: Scene,
    d: Display,
    lock: LockSlot,
    entries: Seq<TexEntry>,
    slot: usize,
    mode: CapCursor,
    ws_override: Option<usize>,
)
    requires
        lock.lock is None,
        frame_ws(d.outputs@[slot as int], ws_override) < s.workspaces@.len(),
        s.workspaces@[frame_ws(d.outputs@[slot as int], ws_override) as int].fullscreen is None,
        d.outputs@[slot as int].ws_switch is None || !s.switch_running,
    ensures
        ({
            let ws = s.workspaces@[frame_ws(d.outputs@[slot as int], ws_override) as int];
            let tiles = batches(mapped(ws.tiled@)) + replays(ws.closing@);
            shape(claimed(frame_items(s, d, lock, entries, slot, mode, ws_override), mode)) == batches(
                bars(s.layers@, slot, BACKGROUND),
            ) + batches(bars(s.layers@, slot, BOTTOM)) + (if ws.strip_moving {
                seq![Item::Open(Owner::Strip)] + tiles + seq![Item::Close]
            } else {
                tiles
            }) + batches(mapped(ws.floats@)) + batches(bars(s.layers@, slot, TOP)) + replays(s.closing_layers@) + batches(
                bars(s.layers@, slot, OVERLAY),
            ) + cursor_items(d, slot, s.pointer, mode)
        }),
{
    let o = d.outputs@[slot as int];
    let ws = s.workspaces@[frame_ws(o, ws_override) as int];
    frames_shape(s, d, lock, entries, slot, mode, ws_override);
    workspaces_shape(stage_spec(o, s.focused, s.cfg), entries, ws);
    let tiles = batches(mapped(ws.tiled@)) + replays(ws.closing@);
    let strip = if ws.strip_moving { seq![Item::Open(Owner::Strip)] + tiles + seq![Item::Close] } else { tiles };
    let low = batches(bars(s.layers@, slot, BACKGROUND)) + batches(bars(s.layers@, slot, BOTTOM));
    assert(low + (strip + batches(mapped(ws.floats@))) =~= low + strip + batches(mapped(ws.floats@)));
}

proof fn lone_window(f: WindowNode)
    ensures
        batches(mapped(seq![f])) == (if f.surface.info.mapped {
            seq![Item::Open(Owner::Window(f.id)), Item::Close]
        } else {
            Seq::empty()
        }),
{
    one_more_window(Seq::empty(), f);
    one_more_batch(mapped(Seq::empty()), Owner::Window(f.id));
    nothing_shown();
    assert(Seq::empty().push(f) =~= seq![f]);
    assert(batches(mapped(seq![f])) =~= (if f.surface.info.mapped {
        seq![Item::Open(Owner::Window(f.id)), Item::Close]
    } else {
        Seq::empty()
    }));
}

/// A frame of a workspace with a fullscreen window holds that window and no tile; the mapped
/// floats follow it exactly where they are kept above. Of the layers only the overlay shows.
pub proof fn fullscreen_frames_hide_the_tiles(
    s: Scene,
    d: Display,
    lock: LockSlot,
    entries: Seq<TexEntry>,
    slot: usize,
    mode: CapCursor,
    ws_override: Option<usize>,
    f: WindowNode,
)
    requires
        lock.lock is None,
        frame_ws(d.outputs@[slot as int], ws_override) < s.workspaces@.len(),
        s.workspaces@[frame_ws(d.outputs@[slot as int], ws_override) as int].fullscreen == Some(f),
        d.outputs@[slot as int].ws_switch is None || !s.switch_running,
    ensures
        ({
            let ws = s.workspaces@[frame_ws(d.outputs@[slot as int], ws_override) as int];
            shape(claimed(frame_items(s, d, lock, entries, slot, mode, ws_override), mode)) == (if f.surface.info.mapped {
                seq![Item::Open(Owner::Window(f.id)), Item::Close]
            } else {
                Seq::empty()
            }) + (if s.cfg.float_above_fullscreen { batches(mapped(ws.floats@)) } else { Seq::empty() }) + batches(
                bars(s.layers@, slot, OVERLAY),
            ) + cursor_items(d, slot, s.pointer, mode)
        }),
{
    let o = d.outputs@[slot as int];
    let ws = s.workspaces@[frame_ws(o, ws_override) as int];
    frames_shape(s, d, lock, entries, slot, mode, ws_override);
    workspaces_shape(stage_spec(o, s.focused, s.cfg), entries, ws);
    lone_window(f);
}

proof fn glue_over(a: Seq<Item>, b: Seq<Item>, c: Seq<Item>)
    ensures
        a + b + c == a + (b + c),
{
    assert(a + b + c =~= a + (b + c));
}

/// The shape of a workspace, with a fullscreen window or without.
pub open spec fn seen(ws: WorkspaceNode, above: bool) -> Seq<Item> {
    match ws.fullscreen {
        None => tiles_then_floats(ws),
        Some(f) => fullscreen_then_floats(f, ws.floats@, above),
    }
}

proof fn two_scenes(b: Seq<Item>, f: Seq<Item>)
    ensures
        shape(
            seq![Item::Open(Owner::SceneOut)] + b + seq![Item::Close] + seq![Item::Open(Owner::SceneIn)] + f + seq![Item::Close]
                + seq![Item::Animating],
        ) == seq![Item::Open(Owner::SceneOut)] + shape(b) + seq![Item::Close, Item::Open(Owner::SceneIn)] + shape(f) + seq![
            Item::Close,
        ],
{
    let a = seq![Item::Open(Owner::SceneOut)];
    let c = seq![Item::Close];
    let e = seq![Item::Open(Owner::SceneIn)];
    shape_of_one(Item::Open(Owner::SceneOut));
    shape_of_one(Item::Open(Owner::SceneIn));
    shape_of_one(Item::Close);
    shape_of_one(Item::Animating);
    shape_of_seven(a, b, c, e, f, c, seq![Item::Animating]);
    let (x, y) = (shape(b), shape(f));
    assert(a + x + c + e =~= a + x + seq![Item::Close, Item::Open(Owner::SceneIn)]);
    let all = a + x + c + e + y + c;
    assert(all + Seq::<Item>::empty() =~= all);
}

proof fn switches_shape(s: Scene, v: Stage, o: Output, entries: Seq<TexEntry>, to: WorkspaceNode)
    requires
        s.switch_running,
        o.ws_switch is Some,
        o.ws_switch->0.from_ws < s.workspaces@.len(),
    ensures
        shape(switched_items(s, v, o, entries, to)) == seq![Item::Open(Owner::SceneOut)] + seen(
            s.workspaces@[o.ws_switch->0.from_ws as int],
            v.cfg.float_above_fullscreen,
        ) + seq![Item::Close, Item::Open(Owner::SceneIn)] + seen(to, v.cfg.float_above_fullscreen) + seq![Item::Close],
{
    let was = s.workspaces@[o.ws_switch->0.from_ws as int];
    workspaces_shape(v, entries, was);
    workspaces_shape(v, entries, to);
    let a = seq![Item::Open(Owner::SceneOut)];
    let b = workspace_items(v, entries, was);
    let c = seq![Item::Close];
    let e = seq![Item::Open(Owner::SceneIn)];
    let f = workspace_items(v, entries, to);
    let g = seq![Item::Animating];
    two_scenes(b, f);
    assert(switched_items(s, v, o, entries, to) == a + b + c + e + f + seq![Item::Close, Item::Animating]);
    assert(c + g =~= seq![Item::Close, Item::Animating]);
    assert(a + b + c + e + f + (c + g) =~= a + b + c + e + f + c + g);
}

/// While a workspace switch runs, a frame holds both workspaces: the one that leaves as one
/// batch, then the one that arrives as another, each with its tiles below its floats.
pub proof fn switching_frames_show_both_workspaces(
    s: Scene,
    d: Display,
    lock: LockSlot,
    entries: Seq<TexEntry>,
    slot: usize,
    mode: CapCursor,
    ws_override: Option<usize>,
    from: usize,
)
    requires
        lock.lock is None,
        frame_ws(d.outputs@[slot as int], ws_override) < s.workspaces@.len(),
        d.outputs@[slot as int].ws_switch matches Some(sw) && sw.from_ws == from,
        s.switch_running,
        from < s.workspaces@.len(),
    ensures
        ({
            let to = s.workspaces@[frame_ws(d.outputs@[slot as int], ws_override) as int];
            let above = s.cfg.float_above_fullscreen;
            let both = seq![Item::Open(Owner::SceneOut)] + seen(s.workspaces@[from as int], above) + seq![
                Item::Close,
                Item::Open(Owner::SceneIn),
            ] + seen(to, above) + seq![Item::Close];
            let over = batches(bars(s.layers@, slot, OVERLAY)) + cursor_items(d, slot, s.pointer, mode);
            shape(claimed(frame_items(s, d, lock, entries, slot, mode, ws_override), mode)) == (if to.fullscreen is Some {
                both + over
            } else {
                batches(bars(s.layers@, slot, BACKGROUND)) + batches(bars(s.layers@, slot, BOTTOM)) + both + batches(
                    bars(s.layers@, slot, TOP),
                ) + replays(s.closing_layers@) + over
            })
        }),
{
    let o = d.outputs@[slot as int];
    let to = s.workspaces@[frame_ws(o, ws_override) as int];
    let v = stage_spec(o, s.focused, s.cfg);
    frames_shape(s, d, lock, entries, slot, mode, ws_override);
    switches_shape(s, v, o, entries, to);
    let low = batches(bars(s.layers@, slot, BACKGROUND)) + batches(bars(s.layers@, slot, BOTTOM));
    let both = shape(switched_items(s, v, o, entries, to));
    let top = batches(bars(s.layers@, slot, TOP));
    let out = replays(s.closing_layers@);
    let over = batches(bars(s.layers@, slot, OVERLAY));
    let cur = cursor_items(d, slot, s.pointer, mode);
    glue_over(both, over, cur);
    glue_over(low + both + top + out, over, cur);
}

} // verus!
