//! What each part of a frame paints, and where: surface trees, decorations, popups.
use crate::output::compose::{
    animating_items, border_items, cursor_items, drag_items, frame_items, frame_ws, layer_popup_items, shadow_items,
    stage_spec, window_border_items, window_items, window_pen, CapCursor, LayerNode, Scene, Stage, WindowNode,
};
use crate::output::scene::{
    buffer_items, feedback_items, popup_items, popups_items, subs_items, tree_items, usable, Area, BufferInfo, Item, Owner, Pen,
    PopupNode, SubNode, SurfaceInfo, SurfaceNode, FULL_ALPHA,
};
use crate::output::textures::{keyed, TexEntry, TexKey};
use crate::output::{first_slot_found, Display};
use crate::protocol::session_lock::LockSlot;
use crate::rect::Rect;
use vstd::prelude::*;

verus! {

/// A point of an output is covered by an area of it.
pub open spec fn covers(a: Area, px: int, py: int) -> bool {
    a.x <= px < a.x + a.w && a.y <= py < a.y + a.h
}

/// An area of an output is where a rectangle of the desktop lies, grown by `by` all around.
pub open spec fn is_at(a: Area, pos: (i32, i32), r: Rect, by: int) -> bool {
    &&& a.x == r.x1 - pos.0 - by
    &&& a.y == r.y1 - pos.1 - by
    &&& a.w == r.x2 - r.x1 + 2 * by
    &&& a.h == r.y2 - r.y1 + 2 * by
}

/// The fills of a square border cover just the points that are within its width of the box
/// and not in it; a rounded one is one ring that reaches that far, one pixel of slack around.
/// Either says whether the window has the focus.
pub proof fn borders_fill_the_rim(pos: (i32, i32), r: Rect, b: i32, round: i32, focused: bool, px: int, py: int)
    requires
        r.wf(),
        b > 0,
    ensures
        ({
            let s = border_items(pos, r, b, round, focused);
            let (gx, gy) = (px + pos.0, py + pos.1);
            &&& round < 1 ==> {
                &&& forall|i: int| 0 <= i < s.len() ==> (#[trigger] s[i] matches Item::Fill { focused: f, .. } && f == focused)
                &&& (exists|i: int| 0 <= i < s.len() && covers((#[trigger] s[i])->Fill_area, px, py)) <==> {
                    &&& r.x1 - b <= gx < r.x2 + b && r.y1 - b <= gy < r.y2 + b
                    &&& !(r.x1 <= gx < r.x2 && r.y1 <= gy < r.y2)
                }
            }
            &&& round >= 1 ==> s.len() == 1 && {
                &&& s[0] matches Item::Border { quad, ring, radius, width, focused: f }
                &&& f == focused
                &&& is_at(ring, pos, r, b as int)
                &&& is_at(quad, pos, r, b + 1)
                &&& radius == round + b
                &&& width == b
            }
        }),
{
    let s = border_items(pos, r, b, round, focused);
    if round < 1 {
        assert(s.len() == 4);
        let (gx, gy) = (px + pos.0, py + pos.1);
        if r.x1 - b <= gx < r.x2 + b && r.y1 - b <= gy < r.y2 + b && !(r.x1 <= gx < r.x2 && r.y1 <= gy < r.y2) {
            if gy < r.y1 {
                assert(covers(s[0]->Fill_area, px, py));
            } else if gy >= r.y2 {
                assert(covers(s[1]->Fill_area, px, py));
            } else if gx < r.x1 {
                assert(covers(s[2]->Fill_area, px, py));
            } else {
                assert(covers(s[3]->Fill_area, px, py));
            }
        }
    }
}

/// A surface that is not mapped paints nothing, and neither do its subsurfaces.
pub proof fn unmapped_surfaces_paint_nothing(p: Pen, entries: Seq<TexEntry>, n: SurfaceNode, x: int, y: int)
    requires
        !n.info.mapped,
    ensures
        tree_items(p, entries, n, x, y).len() == 0,
{
}

proof fn subs_extend(p: Pen, entries: Seq<TexEntry>, a: Seq<SubNode>, b: Seq<SubNode>, n: nat, x: int, y: int)
    requires
        n <= a.len() <= b.len(),
        forall|i: int| 0 <= i < a.len() ==> #[trigger] b[i] == a[i],
    ensures
        subs_items(p, entries, b, n, x, y) == subs_items(p, entries, a, n, x, y),
    decreases n,
{
    if n > 0 {
        subs_extend(p, entries, a, b, (n - 1) as nat, x, y);
    }
}

proof fn subs_prepend(p: Pen, entries: Seq<TexEntry>, s: SubNode, a: Seq<SubNode>, n: nat, x: int, y: int)
    requires
        n <= a.len(),
    ensures
        subs_items(p, entries, seq![s] + a, (n + 1) as nat, x, y) == (if s.pending {
            Seq::empty()
        } else {
            tree_items(p, entries, s.surface, x + s.pos.0, y + s.pos.1)
        }) + subs_items(p, entries, a, n, x, y),
    decreases n,
{
    let all = seq![s] + a;
    let first = if s.pending { Seq::empty() } else { tree_items(p, entries, s.surface, x + s.pos.0, y + s.pos.1) };
    assert(all[0] == s);
    if n == 0 {
        assert(subs_items(p, entries, all, 0, x, y) == Seq::<Item>::empty());
        assert(subs_items(p, entries, all, 1, x, y) =~= first);
        assert(first + subs_items(p, entries, a, 0, x, y) =~= first);
    } else {
        subs_prepend(p, entries, s, a, (n - 1) as nat, x, y);
        assert(all[n as int] == a[n - 1]);
        let t = a[n - 1];
        let last = if t.pending { Seq::empty() } else { tree_items(p, entries, t.surface, x + t.pos.0, y + t.pos.1) };
        let rest = subs_items(p, entries, a, (n - 1) as nat, x, y);
        assert(first + rest + last =~= first + (rest + last));
    }
}

/// A subsurface placed on top of a surface's stack is painted last, over everything of it;
/// one that its parent did not apply yet is not painted.
pub proof fn subsurfaces_on_top_paint_last(
    p: Pen,
    entries: Seq<TexEntry>,
    a: SurfaceNode,
    b: SurfaceNode,
    s: SubNode,
    x: int,
    y: int,
)
    requires
        a.info.mapped,
        b.info == a.info,
        b.latched@ == a.latched@,
        b.below@ == a.below@,
        b.above@ == a.above@.push(s),
    ensures
        s.pending ==> tree_items(p, entries, b, x, y) == tree_items(p, entries, a, x, y),
        !s.pending ==> tree_items(p, entries, b, x, y) == tree_items(p, entries, a, x, y) + tree_items(
            p,
            entries,
            s.surface,
            x + s.pos.0,
            y + s.pos.1,
        ),
{
    subs_extend(p, entries, a.above@, b.above@, a.above@.len(), x, y);
    let front = feedback_items(a.latched@) + subs_items(p, entries, a.below@, a.below@.len(), x, y) + buffer_items(
        p,
        entries,
        a.info,
        x,
        y,
    );
    let over = subs_items(p, entries, a.above@, a.above@.len(), x, y);
    let own = if s.pending { Seq::empty() } else { tree_items(p, entries, s.surface, x + s.pos.0, y + s.pos.1) };
    assert(b.above@[a.above@.len() as int] == s);
    assert(front + (over + own) =~= front + over + own);
    assert(front + over + Seq::<Item>::empty() =~= front + over);
}

/// A subsurface placed at the bottom of a surface's stack is painted before everything of it;
/// only the feedbacks that the surface claims come before.
pub proof fn subsurfaces_at_the_bottom_paint_first(
    p: Pen,
    entries: Seq<TexEntry>,
    a: SurfaceNode,
    b: SurfaceNode,
    s: SubNode,
    x: int,
    y: int,
)
    requires
        a.info.mapped,
        b.info == a.info,
        b.latched@ == a.latched@,
        b.below@ == seq![s] + a.below@,
        b.above@ == a.above@,
        !s.pending,
    ensures
        ({
            let t = tree_items(p, entries, a, x, y);
            let k = a.latched@.len() as int;
            &&& k <= t.len()
            &&& forall|i: int| 0 <= i < k ==> #[trigger] t[i] == Item::Feedback(a.latched@[i])
            &&& tree_items(p, entries, b, x, y) == t.take(k) + tree_items(p, entries, s.surface, x + s.pos.0, y + s.pos.1)
                + t.skip(k)
        }),
{
    subs_prepend(p, entries, s, a.below@, a.below@.len(), x, y);
    assert(b.below@.len() == a.below@.len() + 1);
    let f = feedback_items(a.latched@);
    let own = tree_items(p, entries, s.surface, x + s.pos.0, y + s.pos.1);
    let under = subs_items(p, entries, a.below@, a.below@.len(), x, y);
    let buf = buffer_items(p, entries, a.info, x, y);
    let over = subs_items(p, entries, a.above@, a.above@.len(), x, y);
    let t = tree_items(p, entries, a, x, y);
    assert(t == f + under + buf + over);
    assert(t.take(f.len() as int) =~= f);
    assert(t.skip(f.len() as int) =~= under + buf + over);
    assert(f + (own + under) + buf + over =~= f + own + (under + buf + over));
}

/// A surface's own pixels are painted over the subsurfaces below it and under those above it.
pub proof fn surfaces_paint_between_their_subsurfaces(
    p: Pen,
    entries: Seq<TexEntry>,
    n: SurfaceNode,
    lower: SurfaceNode,
    own: SurfaceNode,
    upper: SurfaceNode,
    x: int,
    y: int,
)
    requires
        n.info.mapped,
        lower.info == (SurfaceInfo { buffer: None, ..n.info }),
        lower.latched@ == n.latched@ && lower.below@ == n.below@ && lower.above@.len() == 0,
        own.info == n.info,
        own.latched@.len() == 0 && own.below@.len() == 0 && own.above@.len() == 0,
        upper.info == lower.info,
        upper.latched@.len() == 0 && upper.below@.len() == 0 && upper.above@ == n.above@,
    ensures
        tree_items(p, entries, n, x, y) == tree_items(p, entries, lower, x, y) + tree_items(p, entries, own, x, y) + tree_items(
            p,
            entries,
            upper,
            x,
            y,
        ),
{
    let f = feedback_items(n.latched@);
    let under = subs_items(p, entries, n.below@, n.below@.len(), x, y);
    let buf = buffer_items(p, entries, n.info, x, y);
    let over = subs_items(p, entries, n.above@, n.above@.len(), x, y);
    assert(tree_items(p, entries, lower, x, y) =~= f + under);
    assert(tree_items(p, entries, own, x, y) =~= buf);
    assert(tree_items(p, entries, upper, x, y) =~= over);
}

/// The cached texture of that key: the first, where keys repeat.
pub open spec fn cached_at(entries: Seq<TexEntry>, client: u64, uid: u64, k: int) -> bool {
    &&& 0 <= k < entries.len()
    &&& entries[k].key.client == client && entries[k].key.uid == uid
    &&& forall|j: int| 0 <= j < k ==> !((#[trigger] entries[j]).key.client == client && entries[j].key.uid == uid)
}

/// A mapped surface without subsurfaces samples the texture that holds its pixels, that of
/// its buffer or of its shadow copy, and shows the part of its box that is inside the clip,
/// there on the output, in the pen's opacity and rounding. The far corner fits.
pub proof fn surfaces_show_their_pixels(p: Pen, entries: Seq<TexEntry>, n: SurfaceNode, b: BufferInfo, k: int, x: i32, y: i32)
    requires
        n.info.mapped,
        n.latched@.len() == 0 && n.below@.len() == 0 && n.above@.len() == 0,
        n.info.buffer == Some(b),
        b.width > 0 && b.height > 0,
        cached_at(entries, n.info.client, if b.dmabuf { b.uid } else { n.info.uid }, k),
        entries[k].width == b.width && entries[k].height == b.height,
        b.dmabuf || entries[k].generation == n.info.content_gen,
        i32::MIN <= x + n.info.size.0 <= i32::MAX && i32::MIN <= y + n.info.size.1 <= i32::MAX,
        x < p.clip.x2 && x + n.info.size.0 > p.clip.x1 && x + n.info.size.0 > x && p.clip.x1 < p.clip.x2,
        y < p.clip.y2 && y + n.info.size.1 > p.clip.y1 && y + n.info.size.1 > y && p.clip.y1 < p.clip.y2,
    ensures
        ({
            let t = tree_items(p, entries, n, x as int, y as int);
            &&& t.len() == 2
            &&& t[0] == Item::Live(entries[k].key)
            &&& p.round < 1 ==> (t[1] matches Item::Tex { tex, alpha, opaque, .. } && tex == entries[k].tex && alpha == p.alpha
                && opaque == (p.solid && !b.has_alpha))
            &&& p.round >= 1 ==> (t[1] matches Item::TexR { tex, alpha, geo, radius, .. } && tex == entries[k].tex && alpha
                == p.alpha && is_at(geo, p.pos, p.clip, 0) && radius == p.round)
            &&& match t[1] {
                Item::Tex { quad, crop, .. } | Item::TexR { quad, crop, .. } => {
                    &&& crop.w == quad.w && crop.h == quad.h
                    &&& crop.of_w == n.info.size.0 && crop.of_h == n.info.size.1
                    &&& quad.x + p.pos.0 == x + crop.x && quad.y + p.pos.1 == y + crop.y
                    &&& forall|px: int, py: int|
                        #[trigger] covers(quad, px, py) <==> {
                            &&& p.clip.x1 <= px + p.pos.0 < p.clip.x2 && p.clip.y1 <= py + p.pos.1 < p.clip.y2
                            &&& x <= px + p.pos.0 < x + n.info.size.0 && y <= py + p.pos.1 < y + n.info.size.1
                        }
                },
                _ => false,
            }
        }),
{
    let key = TexKey { client: n.info.client, uid: if b.dmabuf { b.uid } else { n.info.uid } };
    assert(keyed(key)(entries[k]));
    assert forall|j: int| 0 <= j < k implies !keyed(key)(#[trigger] entries[j]) by {}
    first_slot_found(entries, keyed(key), k);
    assert(usable(entries, n.info, b) == Some(entries[k]));
    let t = tree_items(p, entries, n, x as int, y as int);
    assert(t =~= buffer_items(p, entries, n.info, x as int, y as int));
    assert((x as int) as i32 == x && (y as int) as i32 == y);
}

/// A surface whose pixels are in no texture paints nothing, and says that it wants one.
pub proof fn surfaces_without_a_texture_want_one(p: Pen, entries: Seq<TexEntry>, n: SurfaceNode, b: BufferInfo, x: int, y: int)
    requires
        n.info.mapped,
        n.latched@.len() == 0 && n.below@.len() == 0 && n.above@.len() == 0,
        n.info.buffer == Some(b),
        b.width > 0 && b.height > 0,
        forall|k: int|
            0 <= k < entries.len() && (#[trigger] entries[k]).key.client == n.info.client && entries[k].key.uid == (if b.dmabuf {
                b.uid
            } else {
                n.info.uid
            }) ==> entries[k].width != b.width || entries[k].height != b.height || (!b.dmabuf && entries[k].generation
                != n.info.content_gen),
    ensures
        tree_items(p, entries, n, x, y) == seq![Item::Wanting(n.info.uid)],
{
    let key = TexKey { client: n.info.client, uid: if b.dmabuf { b.uid } else { n.info.uid } };
    crate::output::first_slot_is_lowest(entries, keyed(key));
    assert(tree_items(p, entries, n, x, y) =~= seq![Item::Wanting(n.info.uid)]);
}

/// What a pen paints stays inside its clip, in its opacity, and is rounded just as it says.
pub open spec fn drawn_with(p: Pen, i: Item) -> bool {
    match i {
        Item::Tex { quad, crop, alpha, opaque, .. } => {
            &&& p.round < 1
            &&& alpha == p.alpha
            &&& opaque ==> p.solid
            &&& crop.w == quad.w && crop.h == quad.h
            &&& forall|px: int, py: int|
                #[trigger] covers(quad, px, py) ==> p.clip.x1 <= px + p.pos.0 < p.clip.x2 && p.clip.y1 <= py + p.pos.1
                    < p.clip.y2
        },
        Item::TexR { quad, crop, alpha, geo, radius, .. } => {
            &&& p.round >= 1
            &&& alpha == p.alpha
            &&& is_at(geo, p.pos, p.clip, 0)
            &&& radius == p.round
            &&& crop.w == quad.w && crop.h == quad.h
            &&& forall|px: int, py: int|
                #[trigger] covers(quad, px, py) ==> p.clip.x1 <= px + p.pos.0 < p.clip.x2 && p.clip.y1 <= py + p.pos.1
                    < p.clip.y2
        },
        Item::Feedback(_) | Item::Live(_) | Item::Wanting(_) => true,
        _ => false,
    }
}

pub open spec fn all_drawn_with(p: Pen, items: Seq<Item>) -> bool {
    forall|i: int| 0 <= i < items.len() ==> drawn_with(p, #[trigger] items[i])
}

/// Everything of a surface tree is drawn with the pen it is given.
pub proof fn trees_stay_inside_the_clip(p: Pen, entries: Seq<TexEntry>, n: SurfaceNode, x: int, y: int)
    ensures
        all_drawn_with(p, tree_items(p, entries, n, x, y)),
    decreases n, 0nat,
{
    if n.info.mapped {
        subs_stay_inside(p, entries, n.below@, n.below@.len(), x, y);
        subs_stay_inside(p, entries, n.above@, n.above@.len(), x, y);
        assert(all_drawn_with(p, feedback_items(n.latched@)));
        assert(all_drawn_with(p, buffer_items(p, entries, n.info, x, y)));
    }
}

proof fn subs_stay_inside(p: Pen, entries: Seq<TexEntry>, subs: Seq<SubNode>, n: nat, x: int, y: int)
    ensures
        all_drawn_with(p, subs_items(p, entries, subs, n, x, y)),
    decreases subs, n,
{
    if n > 0 && n <= subs.len() {
        let s = subs[n - 1];
        subs_stay_inside(p, entries, subs, (n - 1) as nat, x, y);
        if !s.pending {
            trees_stay_inside_the_clip(p, entries, s.surface, x + s.pos.0, y + s.pos.1);
        }
    }
}

proof fn popups_extend(p: Pen, entries: Seq<TexEntry>, a: Seq<PopupNode>, b: Seq<PopupNode>, n: nat, ox: int, oy: int)
    requires
        n <= a.len() <= b.len(),
        forall|i: int| 0 <= i < a.len() ==> #[trigger] b[i] == a[i],
    ensures
        popups_items(p, entries, b, n, ox, oy) == popups_items(p, entries, a, n, ox, oy),
    decreases n,
{
    if n > 0 {
        popups_extend(p, entries, a, b, (n - 1) as nat, ox, oy);
    }
}

/// A later popup is painted over the earlier ones of the same parent.
pub proof fn later_popups_paint_last(p: Pen, entries: Seq<TexEntry>, ps: Seq<PopupNode>, q: PopupNode, ox: int, oy: int)
    ensures
        popups_items(p, entries, ps.push(q), (ps.len() + 1) as nat, ox, oy) == popups_items(p, entries, ps, ps.len(), ox, oy)
            + popup_items(p, entries, q, ox, oy),
{
    popups_extend(p, entries, ps, ps.push(q), ps.len(), ox, oy);
}

/// A popup is painted where its anchor puts it from its parent, its window geometry there,
/// and a popup of its own over it, from that origin. One that is not mapped hides its own.
pub proof fn popups_paint_over_their_parent(
    p: Pen,
    entries: Seq<TexEntry>,
    a: PopupNode,
    b: PopupNode,
    q: PopupNode,
    ox: int,
    oy: int,
)
    requires
        b.rel == a.rel && b.geo == a.geo && b.surface == a.surface,
        b.popups@ == a.popups@.push(q),
    ensures
        a.surface.info.mapped ==> popup_items(p, entries, b, ox, oy) == popup_items(p, entries, a, ox, oy) + popup_items(
            p,
            entries,
            q,
            ox + a.rel.0,
            oy + a.rel.1,
        ),
        a.surface.info.mapped && a.popups@.len() == 0 ==> popup_items(p, entries, a, ox, oy) == tree_items(
            p,
            entries,
            a.surface,
            ox + a.rel.0 - a.geo.0,
            oy + a.rel.1 - a.geo.1,
        ),
        !a.surface.info.mapped ==> popup_items(p, entries, b, ox, oy).len() == 0,
{
    if a.surface.info.mapped {
        let (nx, ny) = (ox + a.rel.0, oy + a.rel.1);
        later_popups_paint_last(p, entries, a.popups@, q, nx, ny);
        let t = tree_items(p, entries, a.surface, ox + a.rel.0 - a.geo.0, oy + a.rel.1 - a.geo.1);
        let old = popups_items(p, entries, a.popups@, a.popups@.len(), nx, ny);
        let new = popup_items(p, entries, q, nx, ny);
        assert(t + (old + new) =~= t + old + new);
        assert(t + Seq::<Item>::empty() =~= t);
    }
}

/// How a window's surfaces are painted: cut to its box, in its opacity; rounded by its rule,
/// else as configured, and square in fullscreen.
pub open spec fn is_window_pen(p: Pen, v: Stage, w: WindowNode) -> bool {
    &&& p.pos == v.pos
    &&& p.clip == w.rect
    &&& p.alpha == w.alpha
    &&& p.solid == w.solid
    &&& w.fullscreen ==> p.round == 0
    &&& !w.fullscreen && w.rule_rounding is Some && w.rule_rounding->0 >= 0 ==> p.round == w.rule_rounding->0
    &&& !w.fullscreen && w.rule_rounding is None && v.cfg.rounding >= 0 ==> p.round == v.cfg.rounding
    &&& p.round >= 0
}

/// How everything else on an output is painted: cut to the screen, opaque and square.
pub open spec fn is_screen_pen(p: Pen, v: Stage) -> bool {
    p.pos == v.pos && p.clip == v.screen && p.alpha == FULL_ALPHA && p.solid && p.round == 0
}

/// What goes under a window's own pixels: at most a shadow, then borders.
pub open spec fn trims(deco: Seq<Item>, v: Stage, w: WindowNode, round: i32) -> bool {
    &&& forall|i: int|
        0 <= i < deco.len() ==> match #[trigger] deco[i] {
            Item::Animating => w.animating,
            Item::Shadow { quad, body, radius, range } => {
                &&& !w.fullscreen && w.rule_shadow != Some(false)
                &&& v.cfg.shadow matches Some(sc) && {
                    &&& body.x == w.rect.x1 - v.pos.0 + sc.offset.0 && body.y == w.rect.y1 - v.pos.1 + sc.offset.1
                    &&& body.w == w.rect.x2 - w.rect.x1 && body.h == w.rect.y2 - w.rect.y1
                    &&& quad.x == body.x - sc.size && quad.y == body.y - sc.size
                    &&& quad.w == body.w + 2 * sc.size && quad.h == body.h + 2 * sc.size
                    &&& range == sc.size && radius == round
                }
            },
            Item::Border { focused, .. } | Item::Fill { focused, .. } => !w.fullscreen && focused == (v.focused == Some(
                w.surface.info.uid,
            )),
            _ => false,
        }
    &&& w.animating ==> exists|i: int| 0 <= i < deco.len() && #[trigger] deco[i] is Animating
    &&& !w.fullscreen && w.rule_shadow != Some(false) && v.cfg.shadow is Some ==> exists|i: int|
        0 <= i < deco.len() && #[trigger] deco[i] is Shadow
    &&& !w.fullscreen ==> border_items(
        v.pos,
        w.rect,
        v.cfg.border,
        round,
        v.focused == Some(w.surface.info.uid),
    ).is_suffix_of(deco)
}

/// A mapped window is one batch: its shadow and borders, then its surface tree, with the
/// window geometry at its box, then its popups, which may leave the box; an unmapped one is
/// nothing.
pub proof fn windows_paint_in_order(v: Stage, entries: Seq<TexEntry>, w: WindowNode)
    ensures
        !w.surface.info.mapped ==> window_items(v, entries, w).len() == 0,
        w.surface.info.mapped ==> exists|deco: Seq<Item>, p: Pen, q: Pen|
            #![trigger trims(deco, v, w, p.round), is_screen_pen(q, v)]
            {
                &&& is_window_pen(p, v, w)
                &&& is_screen_pen(q, v)
                &&& trims(deco, v, w, p.round)
                &&& window_items(v, entries, w) == seq![Item::Open(Owner::Window(w.id))] + deco + tree_items(
                    p,
                    entries,
                    w.surface,
                    w.rect.x1 - w.geo.0,
                    w.rect.y1 - w.geo.1,
                ) + (match w.popups {
                    Some(ps) => popups_items(q, entries, ps@, ps@.len(), w.rect.x1 as int, w.rect.y1 as int),
                    None => Seq::empty(),
                }) + seq![Item::Close]
            },
{
    if w.surface.info.mapped {
        let p = window_pen(v.pos, v.cfg, w);
        let q = crate::output::compose::screen_pen(v.pos, v.screen);
        let a = animating_items(w.animating);
        let b = shadow_items(v.pos, v.cfg, w);
        let c = window_border_items(v, w);
        let deco = a + b + c;
        let o = seq![Item::Open(Owner::Window(w.id))];
        assert(o + a + b + c =~= o + deco);
        if w.animating {
            assert(deco[0] is Animating);
        }
        if b.len() > 0 {
            assert(deco[a.len() as int] == b[0]);
        }
        assert(c =~= deco.subrange(deco.len() - c.len(), deco.len() as int));
        assert(trims(deco, v, w, p.round));
        assert(is_screen_pen(q, v));
        assert(is_window_pen(p, v, w));
    }
}

proof fn layer_popups_extend(v: Stage, entries: Seq<TexEntry>, a: Seq<LayerNode>, b: Seq<LayerNode>, slot: usize, fs: bool, n: nat)
    requires
        n <= a.len() <= b.len(),
        forall|i: int| 0 <= i < a.len() ==> #[trigger] b[i] == a[i],
    ensures
        layer_popup_items(v, entries, b, slot, fs, n) == layer_popup_items(v, entries, a, slot, fs, n),
    decreases n,
{
    if n > 0 {
        layer_popups_extend(v, entries, a, b, slot, fs, (n - 1) as nat);
    }
}

/// The popups of a layer surface are painted exactly when it is mapped on the output and, if
/// a window is fullscreen there, in the overlay; those of a later surface over those of an
/// earlier one.
pub proof fn layer_popups_follow_their_layer(
    v: Stage,
    entries: Seq<TexEntry>,
    ls: Seq<LayerNode>,
    l: LayerNode,
    slot: usize,
    fs: bool,
    q: Pen,
)
    requires
        is_screen_pen(q, v),
    ensures
        ({
            let was = layer_popup_items(v, entries, ls, slot, fs, ls.len());
            let is = layer_popup_items(v, entries, ls.push(l), slot, fs, (ls.len() + 1) as nat);
            let own = popups_items(q, entries, l.popups@, l.popups@.len(), l.rect.x1 as int, l.rect.y1 as int);
            &&& l.mapped && l.output == slot && (!fs || l.layer == 3) ==> is == was + own
            &&& !l.mapped || l.output != slot || (fs && l.layer != 3) ==> is == was
        }),
{
    layer_popups_extend(v, entries, ls, ls.push(l), slot, fs, ls.len());
    let was = layer_popup_items(v, entries, ls, slot, fs, ls.len());
    assert(was + Seq::<Item>::empty() =~= was);
}

/// An unlocked frame ends in the popups of its layer surfaces, then the drag icon, with its
/// offset at the pointer, then the cursor, with its hotspot there; a frame on the side has no
/// drag icon, and one that wants no cursor none.
pub proof fn frames_end_in_what_rides_the_pointer(
    s: Scene,
    d: Display,
    lock: LockSlot,
    entries: Seq<TexEntry>,
    slot: usize,
    mode: CapCursor,
    ws_override: Option<usize>,
    q: Pen,
)
    requires
        lock.lock is None,
        frame_ws(d.outputs@[slot as int], ws_override) < s.workspaces@.len(),
        is_screen_pen(q, stage_spec(d.outputs@[slot as int], s.focused, s.cfg)),
        s.pointer matches Some(p) ==> i32::MIN <= p.0 - d.sw_hot.0 - d.outputs@[slot as int].pos.0 <= i32::MAX && i32::MIN <= p.1
            - d.sw_hot.1 - d.outputs@[slot as int].pos.1 <= i32::MAX,
    ensures
        ({
            let o = d.outputs@[slot as int];
            let v = stage_spec(o, s.focused, s.cfg);
            let ws = s.workspaces@[frame_ws(o, ws_override) as int];
            let items = frame_items(s, d, lock, entries, slot, mode, ws_override);
            let drag = drag_items(s, v, entries, ws_override is Some);
            let cursor = cursor_items(d, slot, s.pointer, mode);
            &&& (layer_popup_items(v, entries, s.layers@, slot, ws.fullscreen is Some, s.layers@.len()) + drag
                + cursor).is_suffix_of(items)
            &&& ws_override is Some || s.drag is None || s.pointer is None ==> drag.len() == 0
            &&& ws_override is None && s.drag is Some && s.pointer is Some ==> drag == tree_items(
                q,
                entries,
                s.drag->0.surface,
                (s.pointer->0).0 + (s.drag->0).off.0,
                (s.pointer->0).1 + (s.drag->0).off.1,
            )
            &&& mode is Never || s.pointer is None ==> cursor.len() == 0
            &&& cursor.len() <= 1
            &&& cursor.len() == 1 ==> (cursor[0] matches Item::Cursor(c) && c.x + d.sw_hot.0 + o.pos.0 == (s.pointer->0).0 && c.y
                + d.sw_hot.1 + o.pos.1 == (s.pointer->0).1)
        }),
{
    let o = d.outputs@[slot as int];
    let v = stage_spec(o, s.focused, s.cfg);
    let ws = s.workspaces@[frame_ws(o, ws_override) as int];
    let items = frame_items(s, d, lock, entries, slot, mode, ws_override);
    let a = layer_popup_items(v, entries, s.layers@, slot, ws.fullscreen is Some, s.layers@.len());
    let b = drag_items(s, v, entries, ws_override is Some);
    let c = cursor_items(d, slot, s.pointer, mode);
    let tail = a + b + c;
    assert(tail =~= items.subrange(items.len() - tail.len(), items.len() as int));
}

} // verus!
