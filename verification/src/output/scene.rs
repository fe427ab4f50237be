//! What a frame is made of: surface stacks, popups, windows and layers, turned
//! into a flat paint list in output-local pixels.
use crate::list::retain;
use crate::output::cursor::SwCursor;
use crate::output::first_slot;
use crate::output::textures::{keyed, TexCache, TexEntry, TexKey};
use crate::rect::Rect;
use vstd::prelude::*;

verus! {

/// A box in output-local pixels.
#[derive(Clone, Copy, Debug)]
pub struct Area {
    pub x: i64,
    pub y: i64,
    pub w: i64,
    pub h: i64,
}

/// The part of a surface a quad shows, in surface pixels, with the full size.
#[derive(Clone, Copy, Debug)]
pub struct Crop {
    pub x: i64,
    pub y: i64,
    pub w: i64,
    pub h: i64,
    pub of_w: i64,
    pub of_h: i64,
}

/// Whose batch the following items belong to; transforms apply to whole batches.
#[derive(Clone, Copy, Debug, PartialEq, Eq, Structural)]
pub enum Owner {
    Window(u64),
    Layer(u64),
    /// the workspace that leaves in a switch
    SceneOut,
    /// the workspace that arrives
    SceneIn,
    /// the scrolling strip
    Strip,
}

/// One step of the paint list.
#[derive(Clone, Copy, Debug)]
pub enum Item {
    /// a presentation feedback this frame claims
    Feedback(u64),
    /// a texture this frame samples
    Live(TexKey),
    /// the surface with this uid has no texture with its pixels yet, and is left out
    Wanting(u64),
    Fill { area: Area, focused: bool },
    Border { quad: Area, ring: Area, radius: i64, width: i64, focused: bool },
    Shadow { quad: Area, body: Area, radius: i64, range: i64 },
    Tex { tex: u64, quad: Area, crop: Crop, alpha: u32, opaque: bool },
    /// a texture clipped to a rounded box
    TexR { tex: u64, quad: Area, crop: Crop, alpha: u32, geo: Area, radius: i64 },
    Cursor(SwCursor),
    /// the stashed final batch of a closing window or layer
    Replay(u64),
    Open(Owner),
    Close,
    /// a live animation was sampled: the next frame is due without damage
    Animating,
}

/// The bits of the opacity one.
pub const FULL_ALPHA: u32 = 0x3f80_0000;

#[derive(Clone, Copy, Debug)]
pub struct BufferInfo {
    pub width: u32,
    pub height: u32,
    /// sampled in place; else the surface's shadow copy is uploaded
    pub dmabuf: bool,
    pub uid: u64,
    pub has_alpha: bool,
}

#[derive(Clone, Copy, Debug)]
pub struct SurfaceInfo {
    pub client: u64,
    pub uid: u64,
    pub mapped: bool,
    pub size: (i32, i32),
    /// bumps on every commit of new pixels
    pub content_gen: u64,
    pub buffer: Option<BufferInfo>,
}

/// A surface with its subsurfaces, in stacking order.
pub struct SurfaceNode {
    pub info: SurfaceInfo,
    /// feedbacks waiting for this content to reach glass
    pub latched: Vec<u64>,
    pub below: Vec<SubNode>,
    pub above: Vec<SubNode>,
}

pub struct SubNode {
    pub pos: (i32, i32),
    /// not applied by the parent's commit yet
    pub pending: bool,
    pub surface: SurfaceNode,
}

pub struct PopupNode {
    /// origin relative to the parent's
    pub rel: (i32, i32),
    /// origin of the window geometry inside the surface
    pub geo: (i32, i32),
    pub surface: SurfaceNode,
    pub popups: Vec<PopupNode>,
}

/// How surfaces are painted: output origin, clip box, opacity bits, whether
/// that opacity is full, and corner radius.
#[derive(Clone, Copy, Debug)]
pub struct Pen {
    pub pos: (i32, i32),
    pub clip: Rect,
    pub alpha: u32,
    pub solid: bool,
    pub round: i32,
}

pub open spec fn local_spec(pos: (i32, i32), r: Rect) -> Area {
    Area {
        x: (r.x1 - pos.0) as i64,
        y: (r.y1 - pos.1) as i64,
        w: (r.x2 - r.x1) as i64,
        h: (r.y2 - r.y1) as i64,
    }
}

pub fn local(pos: (i32, i32), r: Rect) -> (a: Area)
    ensures
        a == local_spec(pos, r),
{
    Area {
        x: r.x1 as i64 - pos.0 as i64,
        y: r.y1 as i64 - pos.1 as i64,
        w: r.x2 as i64 - r.x1 as i64,
        h: r.y2 as i64 - r.y1 as i64,
    }
}

pub open spec fn key_spec(s: SurfaceInfo, b: BufferInfo) -> TexKey {
    TexKey { client: s.client, uid: if b.dmabuf { b.uid } else { s.uid } }
}

/// Dmabufs are keyed by buffer, shared-memory shadows by surface.
pub fn key_of(s: &SurfaceInfo, b: &BufferInfo) -> (r: TexKey)
    ensures
        r == key_spec(*s, *b),
{
    TexKey { client: s.client, uid: if b.dmabuf { b.uid } else { s.uid } }
}

/// The cached texture that holds exactly this buffer's pixels, if any.
pub open spec fn usable(entries: Seq<TexEntry>, s: SurfaceInfo, b: BufferInfo) -> Option<TexEntry> {
    match first_slot(entries, keyed(key_spec(s, b))) {
        None => None,
        Some(k) => {
            let e = entries[k];
            if e.width == b.width && e.height == b.height && (b.dmabuf || e.generation == s.content_gen) {
                Some(e)
            } else {
                None
            }
        },
    }
}

/// The quad of a buffer at `(x, y)`, cut to the clip; the crop shrinks by the
/// same amount.
pub open spec fn quad_item(p: Pen, s: SurfaceInfo, b: BufferInfo, tex: u64, dst: Rect, vis: Rect) -> Item {
    let crop = Crop {
        x: (vis.x1 - dst.x1) as i64,
        y: (vis.y1 - dst.y1) as i64,
        w: (vis.x2 - vis.x1) as i64,
        h: (vis.y2 - vis.y1) as i64,
        of_w: s.size.0 as i64,
        of_h: s.size.1 as i64,
    };
    if p.round >= 1 {
        Item::TexR {
            tex,
            quad: local_spec(p.pos, vis),
            crop,
            alpha: p.alpha,
            geo: local_spec(p.pos, p.clip),
            radius: p.round as i64,
        }
    } else {
        Item::Tex {
            tex,
            quad: local_spec(p.pos, vis),
            crop,
            alpha: p.alpha,
            opaque: !b.has_alpha && p.solid,
        }
    }
}

/// What one surface paints of itself.
pub open spec fn buffer_items(p: Pen, entries: Seq<TexEntry>, s: SurfaceInfo, x: int, y: int) -> Seq<Item> {
    match s.buffer {
        None => Seq::empty(),
        Some(b) => if b.width == 0 || b.height == 0 {
            Seq::empty()
        } else {
            match usable(entries, s, b) {
                None => seq![Item::Wanting(s.uid)],
                Some(e) => {
                    let dst = Rect::sized_saturating_spec(x as i32, y as i32, s.size.0, s.size.1);
                    let vis = dst.intersect_spec(p.clip);
                    if vis.empty_spec() {
                        seq![Item::Live(e.key)]
                    } else {
                        seq![Item::Live(e.key), quad_item(p, s, b, e.tex, dst, vis)]
                    }
                },
            }
        },
    }
}

pub open spec fn feedback_items(fbs: Seq<u64>) -> Seq<Item> {
    Seq::new(fbs.len(), |i: int| Item::Feedback(fbs[i]))
}

/// Appending twice is appending once.
pub proof fn glue<A>(a: Seq<A>, b: Seq<A>, c: Seq<A>)
    ensures
        a + b + c == a + (b + c),
{
    assert(a + b + c =~= a + (b + c));
}

/// Pushing onto a sum extends its last part.
pub proof fn glue_push<A>(a: Seq<A>, b: Seq<A>, x: A)
    ensures
        (a + b).push(x) == a + (b + seq![x]),
{
    assert((a + b).push(x) =~= a + (b + seq![x]));
}

/// Appending nothing changes nothing.
pub proof fn glue_none<A>(a: Seq<A>)
    ensures
        a + Seq::<A>::empty() == a,
        Seq::<A>::empty() + a == a,
{
    assert(a + Seq::<A>::empty() =~= a);
    assert(Seq::<A>::empty() + a =~= a);
}

/// Below children, the surface, above children, each in stacking order.
pub open spec fn tree_items(p: Pen, entries: Seq<TexEntry>, n: SurfaceNode, x: int, y: int) -> Seq<Item>
    decreases n, 0nat,
{
    if !n.info.mapped {
        Seq::empty()
    } else {
        feedback_items(n.latched@) + subs_items(p, entries, n.below@, n.below@.len(), x, y) + buffer_items(
            p,
            entries,
            n.info,
            x,
            y,
        ) + subs_items(p, entries, n.above@, n.above@.len(), x, y)
    }
}

pub open spec fn subs_items(
    p: Pen,
    entries: Seq<TexEntry>,
    subs: Seq<SubNode>,
    n: nat,
    x: int,
    y: int,
) -> Seq<Item>
    decreases subs, n,
{
    if n == 0 || n > subs.len() {
        Seq::empty()
    } else {
        let s = subs[n - 1];
        subs_items(p, entries, subs, (n - 1) as nat, x, y) + (if s.pending {
            Seq::empty()
        } else {
            tree_items(p, entries, s.surface, x + s.pos.0, y + s.pos.1)
        })
    }
}

/// An item that claims no feedback.
pub open spec fn no_claim() -> spec_fn(Item) -> bool {
    |i: Item| !(i is Feedback)
}

/// An item that puts something on the frame. The others say what a frame claims, samples,
/// lacks or keeps running, and where batches begin and end.
pub open spec fn paints(i: Item) -> bool {
    match i {
        Item::Fill { .. } | Item::Border { .. } | Item::Shadow { .. } | Item::Tex { .. } | Item::TexR { .. }
        | Item::Cursor(_) | Item::Replay(_) => true,
        _ => false,
    }
}

/// An item that paints, or opens or closes a batch.
pub open spec fn not_bookkeeping() -> spec_fn(Item) -> bool {
    |i: Item| paints(i) || i is Open || i is Close
}

impl Item {
    pub fn paints(&self) -> (r: bool)
        ensures
            r == paints(*self),
    {
        match self {
            Item::Fill { .. } => true,
            Item::Border { .. } => true,
            Item::Shadow { .. } => true,
            Item::Tex { .. } => true,
            Item::TexR { .. } => true,
            Item::Cursor(_) => true,
            Item::Replay(_) => true,
            _ => false,
        }
    }

    pub fn not_bookkeeping(&self) -> (r: bool)
        ensures
            r == not_bookkeeping()(*self),
    {
        match self {
            Item::Open(_) => true,
            Item::Close => true,
            _ => self.paints(),
        }
    }
}

/// Leaves the feedbacks to a frame that reaches glass.
pub(crate) fn drop_claims(items: &mut Vec<Item>)
    ensures
        final(items)@ == old(items)@.filter(no_claim()),
{
    retain(
        items,
        |i: &Item| -> (b: bool) ensures b == !(*i is Feedback) { match i { Item::Feedback(_) => false, _ => true } },
        Ghost(no_claim()),
    );
}

pub open spec fn in_i32(v: int) -> bool {
    i32::MIN <= v <= i32::MAX
}

/// Every origin in the stack fits an `i32`.
pub open spec fn tree_fits(n: SurfaceNode, x: int, y: int) -> bool
    decreases n, 0nat,
{
    n.info.mapped ==> subs_fit(n.below@, n.below@.len(), x, y) && subs_fit(n.above@, n.above@.len(), x, y)
}

pub open spec fn subs_fit(subs: Seq<SubNode>, n: nat, x: int, y: int) -> bool
    decreases subs, n,
{
    if n == 0 || n > subs.len() {
        true
    } else {
        let s = subs[n - 1];
        subs_fit(subs, (n - 1) as nat, x, y) && (s.pending || (in_i32(x + s.pos.0) && in_i32(y + s.pos.1)
            && tree_fits(s.surface, x + s.pos.0, y + s.pos.1)))
    }
}

proof fn subs_fit_each(subs: Seq<SubNode>, n: nat, k: nat, x: int, y: int)
    requires
        k <= n <= subs.len(),
        subs_fit(subs, n, x, y),
    ensures
        subs_fit(subs, k, x, y),
    decreases n,
{
    if k < n {
        subs_fit_each(subs, (n - 1) as nat, k, x, y);
    }
}

/// Paints one surface's own buffer. A surface without a usable texture is wanting: it
/// paints nothing and keeps no texture alive.
pub fn draw_buffer(p: Pen, cache: &TexCache, s: &SurfaceInfo, x: i32, y: i32, items: &mut Vec<Item>)
    ensures
        final(items)@ == old(items)@ + buffer_items(p, cache.entries@, *s, x as int, y as int),
{
    let ghost had = items@;
    assert(had + Seq::<Item>::empty() =~= had);
    let b: BufferInfo = match s.buffer {
        None => {
            return;
        },
        Some(b) => b,
    };
    if b.width == 0 || b.height == 0 {
        return;
    }
    let key: TexKey = key_of(s, &b);
    let e: TexEntry = match cache.find(key) {
        None => {
            items.push(Item::Wanting(s.uid));
            assert(items@ =~= had + seq![Item::Wanting(s.uid)]);
            return;
        },
        Some(k) => cache.entries[k],
    };
    if !(e.width == b.width && e.height == b.height && (b.dmabuf || e.generation == s.content_gen)) {
        items.push(Item::Wanting(s.uid));
        assert(items@ =~= had + seq![Item::Wanting(s.uid)]);
        return;
    }
    items.push(Item::Live(key));
    let dst: Rect = Rect::new_sized_saturating(x, y, s.size.0, s.size.1);
    let vis: Rect = dst.intersect(p.clip);
    if vis.is_empty() {
        assert(items@ =~= had + seq![Item::Live(e.key)]);
        return;
    }
    let crop: Crop = Crop {
        x: vis.x1 as i64 - dst.x1 as i64,
        y: vis.y1 as i64 - dst.y1 as i64,
        w: vis.x2 as i64 - vis.x1 as i64,
        h: vis.y2 as i64 - vis.y1 as i64,
        of_w: s.size.0 as i64,
        of_h: s.size.1 as i64,
    };
    if p.round >= 1 {
        items.push(
            Item::TexR {
                tex: e.tex,
                quad: local(p.pos, vis),
                crop,
                alpha: p.alpha,
                geo: local(p.pos, p.clip),
                radius: p.round as i64,
            },
        );
    } else {
        items.push(
            Item::Tex {
                tex: e.tex,
                quad: local(p.pos, vis),
                crop,
                alpha: p.alpha,
                opaque: !b.has_alpha && p.solid,
            },
        );
    }
    assert(items@ =~= had + seq![Item::Live(e.key), quad_item(p, *s, b, e.tex, dst, vis)]);
}

/// Paints a surface stack with its origin at `(x, y)` in global space.
pub fn draw_surface_tree(p: Pen, cache: &TexCache, n: &SurfaceNode, x: i32, y: i32, items: &mut Vec<Item>)
    requires
        tree_fits(*n, x as int, y as int),
    ensures
        final(items)@ == old(items)@ + tree_items(p, cache.entries@, *n, x as int, y as int),
    decreases n, 0nat,
{
    let ghost had = items@;
    if !n.info.mapped {
        assert(had + Seq::<Item>::empty() =~= had);
        return;
    }
    for i in 0..n.latched.len()
        invariant
            items@ == had + feedback_items(n.latched@.take(i as int)),
    {
        items.push(Item::Feedback(n.latched[i]));
        assert(items@ =~= had + feedback_items(n.latched@.take(i + 1)));
    }
    assert(n.latched@.take(n.latched@.len() as int) =~= n.latched@);
    draw_subs(p, cache, &n.below, x, y, items);
    draw_buffer(p, cache, &n.info, x, y, items);
    draw_subs(p, cache, &n.above, x, y, items);
    assert(items@ =~= had + tree_items(p, cache.entries@, *n, x as int, y as int));
}

fn draw_subs(p: Pen, cache: &TexCache, subs: &Vec<SubNode>, x: i32, y: i32, items: &mut Vec<Item>)
    requires
        subs_fit(subs@, subs@.len(), x as int, y as int),
    ensures
        final(items)@ == old(items)@ + subs_items(p, cache.entries@, subs@, subs@.len(), x as int, y as int),
    decreases subs@, subs@.len(),
{
    let ghost had = items@;
    assert(had + Seq::<Item>::empty() =~= had);
    for i in 0..subs.len()
        invariant
            subs_fit(subs@, subs@.len(), x as int, y as int),
            items@ == had + subs_items(p, cache.entries@, subs@, i as nat, x as int, y as int),
    {
        proof {
            subs_fit_each(subs@, subs@.len(), (i + 1) as nat, x as int, y as int);
        }
        let ghost mid = items@;
        if !subs[i].pending {
            draw_surface_tree(p, cache, &subs[i].surface, x + subs[i].pos.0, y + subs[i].pos.1, items);
        } else {
            assert(mid + Seq::<Item>::empty() =~= mid);
        }
        assert(items@ =~= had + subs_items(p, cache.entries@, subs@, (i + 1) as nat, x as int, y as int));
    }
}

/// A popup paints its stack, then its own popups above it.
pub open spec fn popup_items(p: Pen, entries: Seq<TexEntry>, n: PopupNode, ox: int, oy: int) -> Seq<Item>
    decreases n, 0nat,
{
    if !n.surface.info.mapped {
        Seq::empty()
    } else {
        tree_items(p, entries, n.surface, ox + n.rel.0 - n.geo.0, oy + n.rel.1 - n.geo.1) + popups_items(
            p,
            entries,
            n.popups@,
            n.popups@.len(),
            ox + n.rel.0,
            oy + n.rel.1,
        )
    }
}

pub open spec fn popups_items(
    p: Pen,
    entries: Seq<TexEntry>,
    ps: Seq<PopupNode>,
    n: nat,
    ox: int,
    oy: int,
) -> Seq<Item>
    decreases ps, n,
{
    if n == 0 || n > ps.len() {
        Seq::empty()
    } else {
        popups_items(p, entries, ps, (n - 1) as nat, ox, oy) + popup_items(p, entries, ps[n - 1], ox, oy)
    }
}

pub open spec fn popup_fits(n: PopupNode, ox: int, oy: int) -> bool
    decreases n, 0nat,
{
    n.surface.info.mapped ==> {
        &&& in_i32(ox + n.rel.0) && in_i32(oy + n.rel.1)
        &&& in_i32(ox + n.rel.0 - n.geo.0) && in_i32(oy + n.rel.1 - n.geo.1)
        &&& tree_fits(n.surface, ox + n.rel.0 - n.geo.0, oy + n.rel.1 - n.geo.1)
        &&& popups_fit(n.popups@, n.popups@.len(), ox + n.rel.0, oy + n.rel.1)
    }
}

pub open spec fn popups_fit(ps: Seq<PopupNode>, n: nat, ox: int, oy: int) -> bool
    decreases ps, n,
{
    if n == 0 || n > ps.len() {
        true
    } else {
        popups_fit(ps, (n - 1) as nat, ox, oy) && popup_fits(ps[n - 1], ox, oy)
    }
}

proof fn popups_fit_each(ps: Seq<PopupNode>, n: nat, k: nat, ox: int, oy: int)
    requires
        k <= n <= ps.len(),
        popups_fit(ps, n, ox, oy),
    ensures
        popups_fit(ps, k, ox, oy),
    decreases n,
{
    if k < n {
        popups_fit_each(ps, (n - 1) as nat, k, ox, oy);
    }
}

pub fn draw_popup(p: Pen, cache: &TexCache, n: &PopupNode, ox: i32, oy: i32, items: &mut Vec<Item>)
    requires
        popup_fits(*n, ox as int, oy as int),
    ensures
        final(items)@ == old(items)@ + popup_items(p, cache.entries@, *n, ox as int, oy as int),
    decreases n, 0nat,
{
    let ghost had = items@;
    if !n.surface.info.mapped {
        assert(had + Seq::<Item>::empty() =~= had);
        return;
    }
    let px: i32 = ox + n.rel.0;
    let py: i32 = oy + n.rel.1;
    draw_surface_tree(p, cache, &n.surface, px - n.geo.0, py - n.geo.1, items);
    draw_popups(p, cache, &n.popups, px, py, items);
    assert(items@ =~= had + popup_items(p, cache.entries@, *n, ox as int, oy as int));
}

pub fn draw_popups(p: Pen, cache: &TexCache, ps: &Vec<PopupNode>, ox: i32, oy: i32, items: &mut Vec<Item>)
    requires
        popups_fit(ps@, ps@.len(), ox as int, oy as int),
    ensures
        final(items)@ == old(items)@ + popups_items(p, cache.entries@, ps@, ps@.len(), ox as int, oy as int),
    decreases ps@, ps@.len(),
{
    let ghost had = items@;
    assert(had + Seq::<Item>::empty() =~= had);
    for i in 0..ps.len()
        invariant
            popups_fit(ps@, ps@.len(), ox as int, oy as int),
            items@ == had + popups_items(p, cache.entries@, ps@, i as nat, ox as int, oy as int),
    {
        proof {
            popups_fit_each(ps@, ps@.len(), (i + 1) as nat, ox as int, oy as int);
        }
        draw_popup(p, cache, &ps[i], ox, oy, items);
        assert(items@ =~= had + popups_items(p, cache.entries@, ps@, (i + 1) as nat, ox as int, oy as int));
    }
}

} // verus!
