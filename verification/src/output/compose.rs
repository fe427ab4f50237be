//! Paint order of a frame: background and bottom layers, the workspace, top
//! and overlay layers, their popups, a drag icon, and the cursor.
use crate::list::{filter_members, find};
use crate::output::cursor::{draw_sw_cursor, frame_carries_cursor, SwCursor};
use crate::output::scene::{
    draw_popups, draw_surface_tree, drop_claims, glue, glue_none, glue_push, in_i32, local, local_spec, no_claim,
    popups_fit, popups_items, tree_fits, tree_items, Area, Item, Owner, Pen, PopupNode, SurfaceNode, FULL_ALPHA,
};
use crate::output::textures::{sweep_leaves_only_live, tex_of, unwanted, wanted, TexCache, TexEntry, TexKey};
use crate::output::{first_slot, Display, Output};
use crate::protocol::session_lock::{
    active, after_composing, compose_locked, locked, shown_on, shows, LockSlot, SessionLock,
};
use crate::rect::Rect;
use vstd::prelude::*;

verus! {

#[derive(Clone, Copy, Debug)]
pub struct ShadowConfig {
    pub size: i32,
    pub offset: (i32, i32),
}

/// Decorations as configured.
#[derive(Clone, Copy, Debug)]
pub struct Decor {
    pub rounding: i32,
    pub shadow: Option<ShadowConfig>,
    pub border: i32,
    pub float_above_fullscreen: bool,
}

pub struct WindowNode {
    pub id: u64,
    /// where the window is drawn, animations included
    pub rect: Rect,
    /// origin of the window geometry inside the surface
    pub geo: (i32, i32),
    pub fullscreen: bool,
    pub rule_rounding: Option<i32>,
    pub rule_shadow: Option<bool>,
    /// opacity bits, and whether they say one
    pub alpha: u32,
    pub solid: bool,
    pub surface: SurfaceNode,
    /// popups of an xdg toplevel; `None` for other windows
    pub popups: Option<Vec<PopupNode>>,
    pub animating: bool,
}

pub struct LayerNode {
    pub id: u64,
    pub layer: u32,
    pub mapped: bool,
    pub output: usize,
    pub rect: Rect,
    pub surface: SurfaceNode,
    pub popups: Vec<PopupNode>,
    /// an open animation still runs
    pub animating: bool,
}

pub struct WorkspaceNode {
    pub tiled: Vec<WindowNode>,
    /// stashed batches of windows that are closing
    pub closing: Vec<u64>,
    pub fullscreen: Option<WindowNode>,
    pub floats: Vec<WindowNode>,
    /// a scrolling strip that is visibly off its resting place
    pub strip_moving: bool,
}

pub const BACKGROUND: u32 = 0;

pub const BOTTOM: u32 = 1;

pub const TOP: u32 = 2;

pub const OVERLAY: u32 = 3;

/// Corner radius of a window: its rule, else the configuration, never
/// negative, and none in fullscreen.
pub open spec fn radius_spec(cfg: Decor, w: WindowNode) -> i32 {
    if w.fullscreen {
        0
    } else {
        let r = match w.rule_rounding {
            Some(r) => r,
            None => cfg.rounding,
        };
        if r < 0 { 0 } else { r }
    }
}

pub open spec fn shadow_items(pos: (i32, i32), cfg: Decor, w: WindowNode) -> Seq<Item> {
    if w.fullscreen || w.rule_shadow == Some(false) {
        Seq::empty()
    } else {
        match cfg.shadow {
            None => Seq::empty(),
            Some(sc) => seq![
                Item::Shadow {
                    quad: Area {
                        x: (w.rect.x1 - sc.size + sc.offset.0 - pos.0) as i64,
                        y: (w.rect.y1 - sc.size + sc.offset.1 - pos.1) as i64,
                        w: (w.rect.x2 - w.rect.x1 + 2 * sc.size) as i64,
                        h: (w.rect.y2 - w.rect.y1 + 2 * sc.size) as i64,
                    },
                    body: Area {
                        x: (w.rect.x1 - pos.0 + sc.offset.0) as i64,
                        y: (w.rect.y1 - pos.1 + sc.offset.1) as i64,
                        w: (w.rect.x2 - w.rect.x1) as i64,
                        h: (w.rect.y2 - w.rect.y1) as i64,
                    },
                    radius: radius_spec(cfg, w) as i64,
                    range: sc.size as i64,
                },
            ],
        }
    }
}

/// Four fills just outside the window box, or one rounded ring.
pub open spec fn border_items(pos: (i32, i32), r: Rect, b: i32, round: i32, focused: bool) -> Seq<Item> {
    let x = r.x1 - pos.0;
    let y = r.y1 - pos.1;
    let w = r.x2 - r.x1;
    let h = r.y2 - r.y1;
    if round >= 1 && b > 0 {
        seq![
            Item::Border {
                quad: Area {
                    x: (x - b - 1) as i64,
                    y: (y - b - 1) as i64,
                    w: (w + 2 * b + 2) as i64,
                    h: (h + 2 * b + 2) as i64,
                },
                ring: Area {
                    x: (x - b) as i64,
                    y: (y - b) as i64,
                    w: (w + 2 * b) as i64,
                    h: (h + 2 * b) as i64,
                },
                radius: (round + b) as i64,
                width: b as i64,
                focused,
            },
        ]
    } else {
        seq![
            Item::Fill { area: Area { x: (x - b) as i64, y: (y - b) as i64, w: (w + 2 * b) as i64, h: b as i64 }, focused },
            Item::Fill { area: Area { x: (x - b) as i64, y: (y + h) as i64, w: (w + 2 * b) as i64, h: b as i64 }, focused },
            Item::Fill { area: Area { x: (x - b) as i64, y: y as i64, w: b as i64, h: h as i64 }, focused },
            Item::Fill { area: Area { x: (x + w) as i64, y: y as i64, w: b as i64, h: h as i64 }, focused },
        ]
    }
}

pub fn push_borders(pos: (i32, i32), r: Rect, b: i32, round: i32, focused: bool, items: &mut Vec<Item>)
    ensures
        final(items)@ == old(items)@ + border_items(pos, r, b, round, focused),
{
    let ghost had = items@;
    let a: Area = local(pos, r);
    let t: i64 = b as i64;
    if round >= 1 && b > 0 {
        items.push(
            Item::Border {
                quad: Area { x: a.x - t - 1, y: a.y - t - 1, w: a.w + 2 * t + 2, h: a.h + 2 * t + 2 },
                ring: Area { x: a.x - t, y: a.y - t, w: a.w + 2 * t, h: a.h + 2 * t },
                radius: round as i64 + t,
                width: t,
                focused,
            },
        );
    } else {
        items.push(Item::Fill { area: Area { x: a.x - t, y: a.y - t, w: a.w + 2 * t, h: t }, focused });
        items.push(Item::Fill { area: Area { x: a.x - t, y: a.y + a.h, w: a.w + 2 * t, h: t }, focused });
        items.push(Item::Fill { area: Area { x: a.x - t, y: a.y, w: t, h: a.h }, focused });
        items.push(Item::Fill { area: Area { x: a.x + a.w, y: a.y, w: t, h: a.h }, focused });
    }
    assert(items@ =~= had + border_items(pos, r, b, round, focused));
}

/// The borders touch the window box on all four sides and never cover it.
pub proof fn borders_surround_the_box(pos: (i32, i32), r: Rect, b: i32, focused: bool)
    requires
        r.wf(),
        b >= 0,
    ensures
        ({
            let s = border_items(pos, r, b, 0, focused);
            let inner = local_spec(pos, r);
            &&& s.len() == 4
            &&& s[0]->Fill_area.y + s[0]->Fill_area.h == inner.y
            &&& s[1]->Fill_area.y == inner.y + inner.h
            &&& s[2]->Fill_area.x + s[2]->Fill_area.w == inner.x
            &&& s[3]->Fill_area.x == inner.x + inner.w
        }),
{
}

/// How everything of an output outside a window is painted.
pub open spec fn screen_pen(pos: (i32, i32), screen: Rect) -> Pen {
    Pen { pos, clip: screen, alpha: FULL_ALPHA, solid: true, round: 0 }
}

pub open spec fn window_pen(pos: (i32, i32), cfg: Decor, w: WindowNode) -> Pen {
    Pen { pos, clip: w.rect, alpha: w.alpha, solid: w.solid, round: radius_spec(cfg, w) }
}

/// What surrounds a frame's windows: where its output sits and what it covers, the focus
/// and the decorations.
#[derive(Clone, Copy, Debug)]
pub struct Stage {
    pub pos: (i32, i32),
    pub screen: Rect,
    /// uid of the surface with keyboard focus
    pub focused: Option<u64>,
    pub cfg: Decor,
}

pub open spec fn stage_spec(out: Output, focused: Option<u64>, cfg: Decor) -> Stage {
    Stage { pos: out.pos, screen: out.rect_spec(), focused, cfg }
}

/// The stage of an output.
pub fn stage_of(out: &Output, focused: Option<u64>, cfg: Decor) -> (v: Stage)
    requires
        out.width <= i32::MAX,
        out.height <= i32::MAX,
    ensures
        v.pos == out.pos,
        v.screen == out.rect_spec(),
        v.focused == focused,
        v.cfg == cfg,
{
    Stage { pos: out.pos, screen: out.rect(), focused, cfg }
}

pub open spec fn animating_items(animating: bool) -> Seq<Item> {
    if animating { seq![Item::Animating] } else { Seq::empty() }
}

pub open spec fn window_border_items(v: Stage, w: WindowNode) -> Seq<Item> {
    if w.fullscreen {
        Seq::empty()
    } else {
        border_items(
            v.pos,
            w.rect,
            v.cfg.border,
            radius_spec(v.cfg, w),
            v.focused == Some(w.surface.info.uid),
        )
    }
}

pub open spec fn window_popup_items(v: Stage, entries: Seq<TexEntry>, w: WindowNode) -> Seq<Item> {
    match w.popups {
        None => Seq::empty(),
        Some(ps) => popups_items(
            screen_pen(v.pos, v.screen),
            entries,
            ps@,
            ps@.len(),
            w.rect.x1 as int,
            w.rect.y1 as int,
        ),
    }
}

/// A window paints shadow, borders, its stack clipped to its box, and popups
/// above that; the whole forms one batch.
pub open spec fn window_items(v: Stage, entries: Seq<TexEntry>, w: WindowNode) -> Seq<Item> {
    if !w.surface.info.mapped {
        Seq::empty()
    } else {
        seq![Item::Open(Owner::Window(w.id))] + animating_items(w.animating) + shadow_items(v.pos, v.cfg, w)
            + window_border_items(v, w) + tree_items(
            window_pen(v.pos, v.cfg, w),
            entries,
            w.surface,
            w.rect.x1 - w.geo.0,
            w.rect.y1 - w.geo.1,
        ) + window_popup_items(v, entries, w) + seq![Item::Close]
    }
}

pub open spec fn window_fits(w: WindowNode) -> bool {
    w.surface.info.mapped ==> {
        &&& in_i32(w.rect.x1 - w.geo.0) && in_i32(w.rect.y1 - w.geo.1)
        &&& tree_fits(w.surface, w.rect.x1 - w.geo.0, w.rect.y1 - w.geo.1)
        &&& w.popups matches Some(ps) ==> popups_fit(ps@, ps@.len(), w.rect.x1 as int, w.rect.y1 as int)
    }
}

fn draw_shadow(v: &Stage, w: &WindowNode, round: i32, items: &mut Vec<Item>)
    requires
        round == radius_spec(v.cfg, *w),
    ensures
        final(items)@ == old(items)@ + shadow_items(v.pos, v.cfg, *w),
{
    let ghost had = items@;
    proof {
        glue_none(had);
    }
    let shaded: bool = match w.rule_shadow {
        Some(s) => s,
        None => true,
    };
    if !w.fullscreen && shaded {
        match v.cfg.shadow {
            None => {},
            Some(sc) => {
                let a: Area = local(v.pos, w.rect);
                let size: i64 = sc.size as i64;
                let (ox, oy) = (sc.offset.0 as i64, sc.offset.1 as i64);
                items.push(
                    Item::Shadow {
                        quad: Area {
                            x: a.x - size + ox,
                            y: a.y - size + oy,
                            w: a.w + 2 * size,
                            h: a.h + 2 * size,
                        },
                        body: Area { x: a.x + ox, y: a.y + oy, w: a.w, h: a.h },
                        radius: round as i64,
                        range: size,
                    },
                );
                assert(items@ =~= had + shadow_items(v.pos, v.cfg, *w));
            },
        }
    }
}

pub fn draw_window(v: &Stage, cache: &TexCache, w: &WindowNode, items: &mut Vec<Item>)
    requires
        window_fits(*w),
    ensures
        final(items)@ == old(items)@ + window_items(*v, cache.entries@, *w),
{
    let ghost had = items@;
    proof {
        glue_none(had);
    }
    if !w.surface.info.mapped {
        return;
    }
    let ghost mut acc: Seq<Item> = seq![Item::Open(Owner::Window(w.id))];
    items.push(Item::Open(Owner::Window(w.id)));
    assert(items@ =~= had + acc);
    if w.animating {
        items.push(Item::Animating);
    }
    assert(items@ =~= had + (acc + animating_items(w.animating)));
    proof {
        acc = acc + animating_items(w.animating);
    }
    let round: i32 = if w.fullscreen {
        0
    } else {
        let r: i32 = match w.rule_rounding {
            Some(r) => r,
            None => v.cfg.rounding,
        };
        if r < 0 { 0 } else { r }
    };
    draw_shadow(v, w, round, items);
    proof {
        glue(had, acc, shadow_items(v.pos, v.cfg, *w));
        acc = acc + shadow_items(v.pos, v.cfg, *w);
        glue_none(acc);
    }
    if !w.fullscreen {
        let focused: bool = match v.focused {
            Some(f) => f == w.surface.info.uid,
            None => false,
        };
        push_borders(v.pos, w.rect, v.cfg.border, round, focused, items);
    }
    proof {
        glue(had, acc, window_border_items(*v, *w));
        acc = acc + window_border_items(*v, *w);
    }
    let pen: Pen = Pen { pos: v.pos, clip: w.rect, alpha: w.alpha, solid: w.solid, round };
    draw_surface_tree(pen, cache, &w.surface, w.rect.x1 - w.geo.0, w.rect.y1 - w.geo.1, items);
    proof {
        let part = tree_items(
            pen,
            cache.entries@,
            w.surface,
            w.rect.x1 - w.geo.0,
            w.rect.y1 - w.geo.1,
        );
        glue(had, acc, part);
        acc = acc + part;
        glue_none(acc);
    }
    match &w.popups {
        None => {},
        Some(ps) => {
            let over: Pen = Pen { pos: v.pos, clip: v.screen, alpha: FULL_ALPHA, solid: true, round: 0 };
            draw_popups(over, cache, ps, w.rect.x1, w.rect.y1, items);
        },
    }
    proof {
        glue(had, acc, window_popup_items(*v, cache.entries@, *w));
        acc = acc + window_popup_items(*v, cache.entries@, *w);
    }
    items.push(Item::Close);
    assert(items@ =~= had + (acc + seq![Item::Close]));
}

pub open spec fn windows_items(v: Stage, entries: Seq<TexEntry>, ws: Seq<WindowNode>, n: nat) -> Seq<Item>
    decreases n,
{
    if n == 0 {
        Seq::empty()
    } else {
        windows_items(v, entries, ws, (n - 1) as nat) + window_items(v, entries, ws[n - 1])
    }
}

pub open spec fn windows_fit(ws: Seq<WindowNode>) -> bool {
    forall|i: int| 0 <= i < ws.len() ==> window_fits(#[trigger] ws[i])
}

fn draw_windows(v: &Stage, cache: &TexCache, ws: &Vec<WindowNode>, items: &mut Vec<Item>)
    requires
        windows_fit(ws@),
    ensures
        final(items)@ == old(items)@ + windows_items(*v, cache.entries@, ws@, ws@.len()),
{
    let ghost had = items@;
    assert(had + Seq::<Item>::empty() =~= had);
    for i in 0..ws.len()
        invariant
            windows_fit(ws@),
            items@ == had + windows_items(*v, cache.entries@, ws@, i as nat),
    {
        draw_window(v, cache, &ws[i], items);
        assert(items@ =~= had + windows_items(*v, cache.entries@, ws@, (i + 1) as nat));
    }
}

/// Each stashed batch is replayed, and keeps the animation clock running.
pub open spec fn closing_items(ids: Seq<u64>) -> Seq<Item> {
    Seq::new(2 * ids.len(), |k: int| if k % 2 == 0 { Item::Replay(ids[k / 2]) } else { Item::Animating })
}

fn draw_closings(ids: &Vec<u64>, items: &mut Vec<Item>)
    ensures
        final(items)@ == old(items)@ + closing_items(ids@),
{
    let ghost had = items@;
    for i in 0..ids.len()
        invariant
            items@ == had + closing_items(ids@.take(i as int)),
    {
        items.push(Item::Replay(ids[i]));
        items.push(Item::Animating);
        assert(items@ =~= had + closing_items(ids@.take(i + 1)));
    }
    assert(ids@.take(ids@.len() as int) =~= ids@);
}

/// One workspace: tiled and closing windows, the fullscreen one, floats.
/// Fullscreen hides the tiles, and the floats unless they are kept above it.
pub open spec fn workspace_items(v: Stage, entries: Seq<TexEntry>, ws: WorkspaceNode) -> Seq<Item> {
    let strip = windows_items(v, entries, ws.tiled@, ws.tiled@.len()) + closing_items(ws.closing@);
    (if ws.fullscreen is Some {
        Seq::empty()
    } else if ws.strip_moving {
        seq![Item::Open(Owner::Strip)] + strip + seq![Item::Close, Item::Animating]
    } else {
        strip
    }) + (match ws.fullscreen {
        None => Seq::empty(),
        Some(f) => window_items(v, entries, f),
    }) + (if ws.fullscreen is None || v.cfg.float_above_fullscreen {
        windows_items(v, entries, ws.floats@, ws.floats@.len())
    } else {
        Seq::empty()
    })
}

pub open spec fn workspace_fits(ws: WorkspaceNode) -> bool {
    &&& windows_fit(ws.tiled@)
    &&& windows_fit(ws.floats@)
    &&& ws.fullscreen matches Some(f) ==> window_fits(f)
}

pub fn ws_scene(v: &Stage, cache: &TexCache, ws: &WorkspaceNode, items: &mut Vec<Item>)
    requires
        workspace_fits(*ws),
    ensures
        final(items)@ == old(items)@ + workspace_items(*v, cache.entries@, *ws),
{
    let ghost had = items@;
    let ghost strip = windows_items(*v, cache.entries@, ws.tiled@, ws.tiled@.len()) + closing_items(ws.closing@);
    match &ws.fullscreen {
        None => {
            if ws.strip_moving {
                items.push(Item::Open(Owner::Strip));
            }
            draw_windows(v, cache, &ws.tiled, items);
            draw_closings(&ws.closing, items);
            if ws.strip_moving {
                items.push(Item::Close);
                items.push(Item::Animating);
                assert(items@ =~= had + (seq![Item::Open(Owner::Strip)] + strip + seq![Item::Close, Item::Animating]));
            } else {
                assert(items@ =~= had + strip);
            }
            draw_windows(v, cache, &ws.floats, items);
        },
        Some(f) => {
            draw_window(v, cache, f, items);
            if v.cfg.float_above_fullscreen {
                draw_windows(v, cache, &ws.floats, items);
            }
        },
    }
    assert(items@ =~= had + workspace_items(*v, cache.entries@, *ws));
}

/// Whether a layer surface shows on this output in this layer.
pub open spec fn on_layer(l: LayerNode, slot: usize, layer: u32) -> bool {
    l.layer == layer && l.mapped && l.output == slot
}

/// One shell layer, mapping order as z order within it.
pub open spec fn layer_items(v: Stage, entries: Seq<TexEntry>, ls: Seq<LayerNode>, slot: usize, layer: u32, n: nat) -> Seq<Item>
    decreases n,
{
    if n == 0 {
        Seq::empty()
    } else {
        let l = ls[n - 1];
        layer_items(v, entries, ls, slot, layer, (n - 1) as nat) + (if on_layer(l, slot, layer) {
            seq![Item::Open(Owner::Layer(l.id))] + tree_items(
                screen_pen(v.pos, v.screen),
                entries,
                l.surface,
                l.rect.x1 as int,
                l.rect.y1 as int,
            ) + (if l.animating { seq![Item::Animating] } else { Seq::empty() }) + seq![Item::Close]
        } else {
            Seq::empty()
        })
    }
}

pub open spec fn layers_fit(ls: Seq<LayerNode>) -> bool {
    forall|i: int|
        0 <= i < ls.len() ==> tree_fits(
            (#[trigger] ls[i]).surface,
            ls[i].rect.x1 as int,
            ls[i].rect.y1 as int,
        ) && popups_fit(ls[i].popups@, ls[i].popups@.len(), ls[i].rect.x1 as int, ls[i].rect.y1 as int)
}

pub fn draw_layer(v: &Stage, cache: &TexCache, ls: &Vec<LayerNode>, slot: usize, layer: u32, items: &mut Vec<Item>)
    requires
        layers_fit(ls@),
    ensures
        final(items)@ == old(items)@ + layer_items(*v, cache.entries@, ls@, slot, layer, ls@.len()),
{
    let ghost had = items@;
    assert(had + Seq::<Item>::empty() =~= had);
    let pen: Pen = Pen { pos: v.pos, clip: v.screen, alpha: FULL_ALPHA, solid: true, round: 0 };
    for i in 0..ls.len()
        invariant
            layers_fit(ls@),
            pen == screen_pen(v.pos, v.screen),
            items@ == had + layer_items(*v, cache.entries@, ls@, slot, layer, i as nat),
    {
        let l: &LayerNode = &ls[i];
        let ghost mid = items@;
        if l.layer == layer && l.mapped && l.output == slot {
            items.push(Item::Open(Owner::Layer(l.id)));
            draw_surface_tree(pen, cache, &l.surface, l.rect.x1, l.rect.y1, items);
            if l.animating {
                items.push(Item::Animating);
            }
            items.push(Item::Close);
        } else {
            assert(mid + Seq::<Item>::empty() =~= mid);
        }
        assert(items@ =~= had + layer_items(*v, cache.entries@, ls@, slot, layer, (i + 1) as nat));
    }
}

/// Popups of layer surfaces form one band above every layer; a popup of a layer
/// that fullscreen hides is hidden with it.
pub open spec fn layer_popup_items(v: Stage, entries: Seq<TexEntry>, ls: Seq<LayerNode>, slot: usize, fs: bool, n: nat) -> Seq<Item>
    decreases n,
{
    if n == 0 {
        Seq::empty()
    } else {
        let l = ls[n - 1];
        layer_popup_items(v, entries, ls, slot, fs, (n - 1) as nat) + (if l.mapped && l.output == slot && (!fs
            || l.layer == OVERLAY) {
            popups_items(
                screen_pen(v.pos, v.screen),
                entries,
                l.popups@,
                l.popups@.len(),
                l.rect.x1 as int,
                l.rect.y1 as int,
            )
        } else {
            Seq::empty()
        })
    }
}

pub fn draw_layer_popups(v: &Stage, cache: &TexCache, ls: &Vec<LayerNode>, slot: usize, fs: bool, items: &mut Vec<Item>)
    requires
        layers_fit(ls@),
    ensures
        final(items)@ == old(items)@ + layer_popup_items(*v, cache.entries@, ls@, slot, fs, ls@.len()),
{
    let ghost had = items@;
    assert(had + Seq::<Item>::empty() =~= had);
    let pen: Pen = Pen { pos: v.pos, clip: v.screen, alpha: FULL_ALPHA, solid: true, round: 0 };
    for i in 0..ls.len()
        invariant
            layers_fit(ls@),
            pen == screen_pen(v.pos, v.screen),
            items@ == had + layer_popup_items(*v, cache.entries@, ls@, slot, fs, i as nat),
    {
        let l: &LayerNode = &ls[i];
        let ghost mid = items@;
        if l.mapped && l.output == slot && (!fs || l.layer == OVERLAY) {
            draw_popups(pen, cache, &l.popups, l.rect.x1, l.rect.y1, items);
        } else {
            assert(mid + Seq::<Item>::empty() =~= mid);
        }
        assert(items@ =~= had + layer_popup_items(*v, cache.entries@, ls@, slot, fs, (i + 1) as nat));
    }
}

/// How a composition treats the cursor: presents follow the hardware and
/// software split, captures follow the requesting client's overlay flag.
#[derive(Clone, Copy, Debug, PartialEq, Eq, Structural)]
pub enum CapCursor {
    Present,
    Always,
    Never,
}

/// A drag icon and where its origin sits from the pointer, on which it rides.
pub struct DragIcon {
    pub surface: SurfaceNode,
    pub off: (i32, i32),
}

/// Everything a frame is composed from.
pub struct Scene {
    /// the surface trees of the lock surfaces
    pub lock_trees: Vec<SurfaceNode>,
    pub workspaces: Vec<WorkspaceNode>,
    pub layers: Vec<LayerNode>,
    pub closing_layers: Vec<u64>,
    /// a workspace switch of the output has not finished its animation
    pub switch_running: bool,
    pub drag: Option<DragIcon>,
    pub pointer: Option<(i32, i32)>,
    /// uid of the surface with keyboard focus
    pub focused: Option<u64>,
    pub cfg: Decor,
}

/// A composed frame.
pub struct Composed {
    pub items: Vec<Item>,
    /// textures that no item keeps alive leave the cache now
    pub sweep: bool,
    /// the workspace switch is over
    pub switch_over: bool,
}

/// The coordinates of a scene on an output fit machine integers.
pub open spec fn scene_fits(s: Scene, o: Output) -> bool {
    &&& forall|i: int|
        0 <= i < s.lock_trees@.len() ==> tree_fits(
            #[trigger] s.lock_trees@[i],
            o.rect_spec().x1 as int,
            o.rect_spec().y1 as int,
        )
    &&& forall|i: int| 0 <= i < s.workspaces@.len() ==> workspace_fits(#[trigger] s.workspaces@[i])
    &&& layers_fit(s.layers@)
    &&& s.drag matches Some(d) ==> (s.pointer matches Some(p) ==> {
        &&& in_i32(p.0 + d.off.0) && in_i32(p.1 + d.off.1)
        &&& tree_fits(d.surface, p.0 + d.off.0, p.1 + d.off.1)
    })
}

/// The cursor item of a frame, where it carries one.
pub open spec fn cursor_items(d: Display, slot: usize, pointer: Option<(i32, i32)>, mode: CapCursor) -> Seq<Item> {
    let o = d.outputs@[slot as int];
    match pointer {
        None => Seq::empty(),
        Some(p) => if mode != CapCursor::Never && frame_carries_cursor(d, o, p.0, p.1, mode == CapCursor::Always) {
            seq![
                Item::Cursor(
                    SwCursor {
                        x: (p.0 - d.sw_hot.0 - o.pos.0) as i32,
                        y: (p.1 - d.sw_hot.1 - o.pos.1) as i32,
                        width: d.sw_image->0.width,
                        height: d.sw_image->0.height,
                        rebuild: o.cursor.generation != d.sw_gen || !o.cursor.textured,
                    },
                ),
            ]
        } else {
            Seq::empty()
        },
    }
}

/// The workspace that leaves in a switch, as one batch.
pub open spec fn leaving_items(s: Scene, v: Stage, entries: Seq<TexEntry>, from_ws: usize) -> Seq<Item> {
    if from_ws < s.workspaces@.len() {
        seq![Item::Open(Owner::SceneOut)] + workspace_items(v, entries, s.workspaces@[from_ws as int]) + seq![
            Item::Close,
        ]
    } else {
        Seq::empty()
    }
}

/// The workspace part of a frame: both scenes while a switch runs, else one.
pub open spec fn switched_items(s: Scene, v: Stage, o: Output, entries: Seq<TexEntry>, ws: WorkspaceNode) -> Seq<Item> {
    match o.ws_switch {
        Some(sw) => if s.switch_running {
            leaving_items(s, v, entries, sw.from_ws) + seq![Item::Open(Owner::SceneIn)] + workspace_items(
                v,
                entries,
                ws,
            ) + seq![Item::Close, Item::Animating]
        } else {
            workspace_items(v, entries, ws)
        },
        None => workspace_items(v, entries, ws),
    }
}

/// A drag icon rides the pointer; a side scene leaves it out.
pub open spec fn drag_items(s: Scene, v: Stage, entries: Seq<TexEntry>, side: bool) -> Seq<Item> {
    if side {
        Seq::empty()
    } else {
        match (s.drag, s.pointer) {
            (Some(d), Some(p)) => tree_items(
                screen_pen(v.pos, v.screen),
                entries,
                d.surface,
                p.0 + d.off.0,
                p.1 + d.off.1,
            ),
            _ => Seq::empty(),
        }
    }
}

/// Layers below the windows; fullscreen hides them.
pub open spec fn below_items(s: Scene, v: Stage, entries: Seq<TexEntry>, slot: usize, ws: WorkspaceNode) -> Seq<Item> {
    if ws.fullscreen is Some {
        Seq::empty()
    } else {
        layer_items(v, entries, s.layers@, slot, BACKGROUND, s.layers@.len()) + layer_items(
            v,
            entries,
            s.layers@,
            slot,
            BOTTOM,
            s.layers@.len(),
        )
    }
}

/// The top layer and layers closing; fullscreen hides them.
pub open spec fn top_items(s: Scene, v: Stage, entries: Seq<TexEntry>, slot: usize, ws: WorkspaceNode) -> Seq<Item> {
    if ws.fullscreen is Some {
        Seq::empty()
    } else {
        layer_items(v, entries, s.layers@, slot, TOP, s.layers@.len()) + closing_items(s.closing_layers@)
    }
}

/// The tree of the surface with this identity.
pub open spec fn tree_of(uid: u64) -> spec_fn(SurfaceNode) -> bool {
    |n: SurfaceNode| n.info.uid == uid
}

/// A locked frame, without the cursor: the tree of the surface that the lock shows on this
/// output, at the output's corner, or nothing.
pub open spec fn locked_items(s: Scene, v: Stage, entries: Seq<TexEntry>, shown: Option<u64>) -> Seq<Item> {
    match shown {
        None => Seq::empty(),
        Some(uid) => match first_slot(s.lock_trees@, tree_of(uid)) {
            None => Seq::empty(),
            Some(k) => tree_items(
                screen_pen(v.pos, v.screen),
                entries,
                s.lock_trees@[k],
                v.screen.x1 as int,
                v.screen.y1 as int,
            ),
        },
    }
}

/// An unlocked frame of workspace `ws`, without the cursor.
pub open spec fn open_items(
    s: Scene,
    v: Stage,
    o: Output,
    entries: Seq<TexEntry>,
    slot: usize,
    ws: WorkspaceNode,
    side: bool,
) -> Seq<Item> {
    let n = s.layers@.len();
    below_items(s, v, entries, slot, ws) + switched_items(s, v, o, entries, ws) + top_items(s, v, entries, slot, ws)
        + layer_items(v, entries, s.layers@, slot, OVERLAY, n) + layer_popup_items(
        v,
        entries,
        s.layers@,
        slot,
        ws.fullscreen is Some,
        n,
    ) + drag_items(s, v, entries, side)
}

/// Which workspace a frame shows.
pub open spec fn frame_ws(o: Output, ws_override: Option<usize>) -> usize {
    match ws_override {
        Some(w) => w,
        None => o.ws,
    }
}

/// The whole paint list.
pub open spec fn frame_items(
    s: Scene,
    d: Display,
    lock: LockSlot,
    entries: Seq<TexEntry>,
    slot: usize,
    mode: CapCursor,
    ws_override: Option<usize>,
) -> Seq<Item> {
    let w = frame_ws(d.outputs@[slot as int], ws_override);
    let v = stage_spec(d.outputs@[slot as int], s.focused, s.cfg);
    if lock.lock is Some {
        locked_items(s, v, entries, shown_on(lock.lock->0, d.outputs@[slot as int].name@)) + cursor_items(d, slot, s.pointer, mode)
    } else if w >= s.workspaces@.len() {
        Seq::empty()
    } else {
        open_items(
            s,
            v,
            d.outputs@[slot as int],
            entries,
            slot,
            s.workspaces@[w as int],
            ws_override is Some,
        ) + cursor_items(
            d,
            slot,
            s.pointer,
            mode,
        )
    }
}

/// The cursor coordinates of a frame fit an `i32`.
pub open spec fn pointer_fits(d: Display, slot: usize, pointer: Option<(i32, i32)>) -> bool {
    pointer matches Some(p) ==> {
        let o = d.outputs@[slot as int];
        &&& in_i32(p.0 - d.sw_hot.0) && in_i32(p.1 - d.sw_hot.1)
        &&& in_i32(p.0 - d.sw_hot.0 - o.pos.0) && in_i32(p.1 - d.sw_hot.1 - o.pos.1)
    }
}

fn draw_cursor(d: &Display, slot: usize, pointer: Option<(i32, i32)>, mode: CapCursor, items: &mut Vec<Item>)
    requires
        slot < d.outputs@.len(),
        crate::output::sizes_fit(d.outputs@),
        pointer_fits(*d, slot, pointer),
    ensures
        final(items)@ == old(items)@ + cursor_items(*d, slot, pointer, mode),
{
    let ghost had = items@;
    assert(had + Seq::<Item>::empty() =~= had);
    match mode {
        CapCursor::Never => {},
        _ => {
            let force: bool = match mode {
                CapCursor::Always => true,
                _ => false,
            };
            match draw_sw_cursor(d, slot, pointer, force) {
                None => {},
                Some(c) => {
                    items.push(Item::Cursor(c));
                    assert(items@ =~= had + seq![Item::Cursor(c)]);
                },
            }
        },
    }
}

/// The paint list of a frame: only one that is presented claims feedbacks.
pub open spec fn claimed(items: Seq<Item>, mode: CapCursor) -> Seq<Item> {
    if mode == CapCursor::Present { items } else { items.filter(no_claim()) }
}

/// Whether a frame lets the textures go that it does not sample: a locked one, and one of the
/// workspace that the output shows.
pub open spec fn sweeps(s: Scene, d: Display, lock: LockSlot, slot: usize, ws_override: Option<usize>) -> bool {
    lock.lock is Some || (ws_override is None && d.outputs@[slot as int].ws < s.workspaces@.len())
}

/// Whether a frame ends the workspace switch of its output.
pub open spec fn ends_switch(s: Scene, d: Display, lock: LockSlot, slot: usize, ws_override: Option<usize>) -> bool {
    &&& lock.lock is None
    &&& frame_ws(d.outputs@[slot as int], ws_override) < s.workspaces@.len()
    &&& d.outputs@[slot as int].ws_switch is Some
    &&& !s.switch_running
}

/// `b` is `a` after a frame of the output was composed: one for glass stages the output.
pub open spec fn staged(a: LockSlot, b: LockSlot, name: Seq<char>, mode: CapCursor) -> bool {
    match a.lock {
        Some(l) => if mode == CapCursor::Present {
            &&& b.lock is Some
            &&& b.lock->0.progress() == after_composing(l.progress(), name)
            &&& b.lock->0 == (SessionLock { staged_outputs: b.lock->0.staged_outputs, ..l })
        } else {
            b == a
        },
        None => b == a,
    }
}

/// Composes a frame of the output in `slot`. A locked session shows the lock's surface on
/// that output and nothing else but the cursor, and a frame for glass stages the output:
/// what it presents next is locked. A capture stages nothing, as it reaches no glass.
/// `ws_override` composes another workspace on the side: such a frame leaves the drag icon
/// out and lets no textures go.
pub fn compose_ops(
    s: &Scene,
    d: &Display,
    lock: &mut LockSlot,
    cache: &TexCache,
    slot: usize,
    mode: CapCursor,
    ws_override: Option<usize>,
) -> (r: Composed)
    requires
        slot < d.outputs@.len(),
        scene_fits(*s, d.outputs@[slot as int]),
        crate::output::sizes_fit(d.outputs@),
        pointer_fits(*d, slot, s.pointer),
    ensures
        r.items@ == claimed(frame_items(*s, *d, *old(lock), cache.entries@, slot, mode, ws_override), mode),
        r.sweep == sweeps(*s, *d, *old(lock), slot, ws_override),
        r.switch_over == ends_switch(*s, *d, *old(lock), slot, ws_override),
        staged(*old(lock), *final(lock), d.outputs@[slot as int].name@, mode),
{
    let name: &str = d.outputs[slot].name.as_str();
    if locked(lock) {
        let shown: Option<u64> = match mode {
            CapCursor::Present => compose_locked(lock, name),
            _ => match active(lock) {
                Some(l) => l.shown_on(name),
                None => None,
            },
        };
        let mut items: Vec<Item> = locked_frame(s, stage_of(&d.outputs[slot], s.focused, s.cfg), cache, shown);
        draw_cursor(d, slot, s.pointer, mode, &mut items);
        match mode {
            CapCursor::Present => {},
            _ => drop_claims(&mut items),
        }
        return Composed { items, sweep: true, switch_over: false };
    }
    let mut c: Composed = paint(s, d, cache, slot, mode, ws_override);
    match mode {
        CapCursor::Present => {},
        _ => drop_claims(&mut c.items),
    }
    c
}

fn locked_frame(s: &Scene, v: Stage, cache: &TexCache, shown: Option<u64>) -> (items: Vec<Item>)
    requires
        forall|i: int|
            0 <= i < s.lock_trees@.len() ==> tree_fits(
                #[trigger] s.lock_trees@[i],
                v.screen.x1 as int,
                v.screen.y1 as int,
            ),
    ensures
        items@ == locked_items(*s, v, cache.entries@, shown),
{
    let mut items: Vec<Item> = Vec::new();
    let over: Pen = Pen { pos: v.pos, clip: v.screen, alpha: FULL_ALPHA, solid: true, round: 0 };
    match shown {
        None => {},
        Some(uid) => match find(
            &s.lock_trees,
            |n: &SurfaceNode| -> (b: bool) ensures b == (n.info.uid == uid) { n.info.uid == uid },
            Ghost(tree_of(uid)),
        ) {
            None => {},
            Some(k) => draw_surface_tree(over, cache, &s.lock_trees[k], v.screen.x1, v.screen.y1, &mut items),
        },
    }
    assert(items@ =~= locked_items(*s, v, cache.entries@, shown));
    items
}

/// An unlocked frame.
fn paint(
    s: &Scene,
    d: &Display,
    cache: &TexCache,
    slot: usize,
    mode: CapCursor,
    ws_override: Option<usize>,
) -> (r: Composed)
    requires
        slot < d.outputs@.len(),
        scene_fits(*s, d.outputs@[slot as int]),
        crate::output::sizes_fit(d.outputs@),
        pointer_fits(*d, slot, s.pointer),
    ensures
        r.items@ == frame_items(*s, *d, LockSlot { lock: None }, cache.entries@, slot, mode, ws_override),
        r.sweep == (ws_override is None && d.outputs@[slot as int].ws < s.workspaces@.len()),
        r.switch_over == (frame_ws(d.outputs@[slot as int], ws_override) < s.workspaces@.len()
            && d.outputs@[slot as int].ws_switch is Some && !s.switch_running),
{
    let mut items: Vec<Item> = Vec::new();
    let v: Stage = stage_of(&d.outputs[slot], s.focused, s.cfg);
    let over: Pen = Pen { pos: v.pos, clip: v.screen, alpha: FULL_ALPHA, solid: true, round: 0 };
    let w: usize = match ws_override {
        Some(w) => w,
        None => d.outputs[slot].ws,
    };
    if w >= s.workspaces.len() {
        return Composed { items, sweep: false, switch_over: false };
    }
    let ws: &WorkspaceNode = &s.workspaces[w];
    let fs: bool = ws.fullscreen.is_some();
    if !fs {
        draw_layer(&v, cache, &s.layers, slot, BACKGROUND, &mut items);
        draw_layer(&v, cache, &s.layers, slot, BOTTOM, &mut items);
    }
    let ghost mut acc: Seq<Item> = below_items(*s, v, cache.entries@, slot, *ws);
    assert(items@ =~= acc);
    draw_switched(s, v, &d.outputs[slot], cache, ws, &mut items);
    proof {
        acc = acc + switched_items(*s, v, d.outputs@[slot as int], cache.entries@, *ws);
        glue_none(acc);
    }
    if !fs {
        draw_layer(&v, cache, &s.layers, slot, TOP, &mut items);
        draw_closings(&s.closing_layers, &mut items);
        proof {
            glue(
                acc,
                layer_items(v, cache.entries@, s.layers@, slot, TOP, s.layers@.len()),
                closing_items(s.closing_layers@),
            );
        }
    }
    proof {
        acc = acc + top_items(*s, v, cache.entries@, slot, *ws);
    }
    draw_layer(&v, cache, &s.layers, slot, OVERLAY, &mut items);
    draw_layer_popups(&v, cache, &s.layers, slot, fs, &mut items);
    proof {
        acc = acc + layer_items(v, cache.entries@, s.layers@, slot, OVERLAY, s.layers@.len());
        acc = acc + layer_popup_items(v, cache.entries@, s.layers@, slot, fs, s.layers@.len());
        glue_none(acc);
    }
    if ws_override.is_none() {
        match (&s.drag, s.pointer) {
            (Some(icon), Some(p)) => draw_surface_tree(
                over,
                cache,
                &icon.surface,
                p.0 + icon.off.0,
                p.1 + icon.off.1,
                &mut items,
            ),
            _ => {},
        }
    }
    proof {
        acc = acc + drag_items(*s, v, cache.entries@, ws_override is Some);
    }
    draw_cursor(d, slot, s.pointer, mode, &mut items);
    let switch_over: bool = d.outputs[slot].ws_switch.is_some() && !s.switch_running;
    Composed { items, sweep: ws_override.is_none(), switch_over }
}

fn draw_leaving(s: &Scene, v: Stage, cache: &TexCache, from_ws: usize, items: &mut Vec<Item>)
    requires
        forall|i: int| 0 <= i < s.workspaces@.len() ==> workspace_fits(#[trigger] s.workspaces@[i]),
    ensures
        final(items)@ == old(items)@ + leaving_items(*s, v, cache.entries@, from_ws),
{
    let ghost had = items@;
    proof {
        glue_none(had);
    }
    if from_ws < s.workspaces.len() {
        let ghost mut acc: Seq<Item> = seq![Item::Open(Owner::SceneOut)];
        items.push(Item::Open(Owner::SceneOut));
        assert(items@ =~= had + acc);
        ws_scene(&v, cache, &s.workspaces[from_ws], items);
        proof {
            let part = workspace_items(v, cache.entries@, s.workspaces@[from_ws as int]);
            glue(had, acc, part);
            acc = acc + part;
            glue_push(had, acc, Item::Close);
        }
        items.push(Item::Close);
    }
}

fn draw_switched(s: &Scene, v: Stage, o: &Output, cache: &TexCache, ws: &WorkspaceNode, items: &mut Vec<Item>)
    requires
        forall|i: int| 0 <= i < s.workspaces@.len() ==> workspace_fits(#[trigger] s.workspaces@[i]),
        workspace_fits(*ws),
    ensures
        final(items)@ == old(items)@ + switched_items(*s, v, *o, cache.entries@, *ws),
{
    let ghost had = items@;
    match o.ws_switch {
        Some(sw) => {
            if s.switch_running {
                draw_leaving(s, v, cache, sw.from_ws, items);
                let ghost mut acc: Seq<Item> = leaving_items(*s, v, cache.entries@, sw.from_ws);
                items.push(Item::Open(Owner::SceneIn));
                proof {
                    glue_push(had, acc, Item::Open(Owner::SceneIn));
                    acc = acc + seq![Item::Open(Owner::SceneIn)];
                }
                ws_scene(&v, cache, ws, items);
                proof {
                    glue(had, acc, workspace_items(v, cache.entries@, *ws));
                    acc = acc + workspace_items(v, cache.entries@, *ws);
                    glue_push(had, acc, Item::Close);
                    glue_push(had, acc + seq![Item::Close], Item::Animating);
                    glue(acc, seq![Item::Close], seq![Item::Animating]);
                    assert(seq![Item::Close] + seq![Item::Animating] =~= seq![Item::Close, Item::Animating]);
                }
                items.push(Item::Close);
                items.push(Item::Animating);
            } else {
                ws_scene(&v, cache, ws, items);
            }
        },
        None => ws_scene(&v, cache, ws, items),
    }
}

/// `b` is `a` with the switch of the head in `slot` gone, if it is over.
pub open spec fn switched_over(a: Display, b: Display, slot: usize, over: bool) -> bool {
    &&& b.outputs@ == (if over {
        a.outputs@.update(slot as int, Output { ws_switch: None, ..a.outputs@[slot as int] })
    } else {
        a.outputs@
    })
    &&& b == (Display { outputs: b.outputs, ..a })
}

/// `b` is `a` without the textures that no item samples, which retire.
pub open spec fn swept(a: TexCache, b: TexCache, items: Seq<Item>) -> bool {
    &&& b.entries@ == a.entries@.filter(wanted(live_of(items)))
    &&& b.retired@ == a.retired@ + a.entries@.filter(unwanted(live_of(items))).map_values(tex_of())
    &&& b.held() == a.held()
}

/// Composes a frame with all that comes of it: a workspace switch that ran out ends, and
/// textures that nothing samples any more retire, to be destroyed once the gpu is done.
pub fn compose(
    s: &Scene,
    d: &mut Display,
    lock: &mut LockSlot,
    cache: &mut TexCache,
    slot: usize,
    mode: CapCursor,
    ws_override: Option<usize>,
) -> (items: Vec<Item>)
    requires
        slot < old(d).outputs@.len(),
        scene_fits(*s, old(d).outputs@[slot as int]),
        crate::output::sizes_fit(old(d).outputs@),
        pointer_fits(*old(d), slot, s.pointer),
        old(cache).wf(),
    ensures
        items@ == claimed(frame_items(*s, *old(d), *old(lock), old(cache).entries@, slot, mode, ws_override), mode),
        staged(*old(lock), *final(lock), old(d).outputs@[slot as int].name@, mode),
        final(cache).wf(),
        if sweeps(*s, *old(d), *old(lock), slot, ws_override) {
            swept(*old(cache), *final(cache), items@)
        } else {
            *final(cache) == *old(cache)
        },
        switched_over(*old(d), *final(d), slot, ends_switch(*s, *old(d), *old(lock), slot, ws_override)),
{
    let c: Composed = compose_ops(s, d, lock, cache, slot, mode, ws_override);
    if c.sweep {
        let live: Vec<TexKey> = live_keys(&c.items);
        cache.sweep(&live);
    }
    if c.switch_over {
        d.outputs[slot].ws_switch = None;
    }
    c.items
}

/// A locked session keeps no texture of normal content alive: after a locked frame the cache
/// holds nothing but what the lock's own surface samples, and every other texture retires.
pub proof fn locks_let_textures_go(
    s: Scene,
    d: Display,
    lock: LockSlot,
    a: TexCache,
    b: TexCache,
    slot: usize,
    mode: CapCursor,
    ws_override: Option<usize>,
    i: int,
)
    requires
        lock.lock is Some,
        swept(a, b, claimed(frame_items(s, d, lock, a.entries@, slot, mode, ws_override), mode)),
        0 <= i < b.entries@.len(),
    ensures
        sweeps(s, d, lock, slot, ws_override),
        live_of(
            locked_items(s, stage_spec(d.outputs@[slot as int], s.focused, s.cfg), a.entries@, shown_on(lock.lock->0, d.outputs@[slot as int].name@)),
        ).contains(b.entries@[i].key),
{
    let v = stage_spec(d.outputs@[slot as int], s.focused, s.cfg);
    let shown = locked_items(s, v, a.entries@, shown_on(lock.lock->0, d.outputs@[slot as int].name@));
    let cursor = cursor_items(d, slot, s.pointer, mode);
    let all = shown + cursor;
    sweep_leaves_only_live(a.entries@, live_of(claimed(all, mode)), i);
    let key = b.entries@[i].key;
    live_is_live(claimed(all, mode), key);
    let j = choose|j: int| 0 <= j < claimed(all, mode).len() && claimed(all, mode)[j] == Item::Live(key);
    filter_members(all, no_claim(), Item::Live(key));
    assert(claimed(all, mode).contains(Item::Live(key)));
    assert(all.contains(Item::Live(key)));
    let k = choose|k: int| 0 <= k < all.len() && all[k] == Item::Live(key);
    assert(k < shown.len());
    live_items_are_live(shown, k, key);
}

proof fn live_is_live(items: Seq<Item>, key: TexKey)
    requires
        live_of(items).contains(key),
    ensures
        exists|j: int| 0 <= j < items.len() && #[trigger] items[j] == Item::Live(key),
    decreases items.len(),
{
    if items.len() > 0 {
        let rest = items.drop_last();
        if live_of(rest).contains(key) {
            live_is_live(rest, key);
            let j = choose|j: int| 0 <= j < rest.len() && #[trigger] rest[j] == Item::Live(key);
            assert(items[j] == Item::Live(key));
        } else {
            let i = choose|i: int| 0 <= i < live_of(items).len() && live_of(items)[i] == key;
            if i < live_of(rest).len() {
                assert(live_of(rest)[i] == key);
            }
            assert(items[items.len() - 1] == Item::Live(key));
        }
    }
}

proof fn live_items_are_live(items: Seq<Item>, j: int, key: TexKey)
    requires
        0 <= j < items.len(),
        items[j] == Item::Live(key),
    ensures
        live_of(items).contains(key),
    decreases items.len(),
{
    let rest = items.drop_last();
    if j < rest.len() {
        live_items_are_live(rest, j, key);
        let i = choose|i: int| 0 <= i < live_of(rest).len() && live_of(rest)[i] == key;
        assert(live_of(items)[i] == key);
    } else {
        assert(live_of(items)[live_of(items).len() - 1] == key);
    }
}

/// A locked session never shows normal content: its frame depends on nothing but the lock's
/// own trees, the pointer and the cursor, whatever workspaces, layers and drags there are.
pub proof fn lock_hides_everything(
    a: Scene,
    b: Scene,
    d: Display,
    lock: LockSlot,
    entries: Seq<TexEntry>,
    slot: usize,
    mode: CapCursor,
    x: Option<usize>,
    y: Option<usize>,
)
    requires
        lock.lock is Some,
        a.lock_trees == b.lock_trees,
        a.pointer == b.pointer,
    ensures
        frame_items(a, d, lock, entries, slot, mode, x) == frame_items(b, d, lock, entries, slot, mode, y),
{
}

/// An output without a mapped lock surface is blank while locked, but for the cursor; so is
/// every output once the holder is dead.
pub proof fn locked_outputs_are_blank_without_a_surface(
    s: Scene,
    d: Display,
    lock: LockSlot,
    entries: Seq<TexEntry>,
    slot: usize,
    mode: CapCursor,
    ws_override: Option<usize>,
)
    requires
        lock.lock is Some,
        forall|i: int|
            0 <= i < lock.lock->0.surfaces@.len() ==> !(#[trigger] shows(d.outputs@[slot as int].name@)(
                lock.lock->0.surfaces@[i],
            )),
    ensures
        frame_items(s, d, lock, entries, slot, mode, ws_override) == cursor_items(d, slot, s.pointer, mode),
{
    crate::output::first_slot_absent(lock.lock->0.surfaces@, shows(d.outputs@[slot as int].name@));
    assert(Seq::<Item>::empty() + cursor_items(d, slot, s.pointer, mode) =~= cursor_items(d, slot, s.pointer, mode));
}

/// A capture claims no feedback: those wait for a frame that reaches glass.
pub proof fn captures_claim_nothing(items: Seq<Item>, mode: CapCursor, i: int)
    requires
        mode != CapCursor::Present,
        0 <= i < claimed(items, mode).len(),
    ensures
        !(claimed(items, mode)[i] is Feedback),
{
    broadcast use vstd::seq_lib::group_filter_ensures;

    assert(no_claim()(items.filter(no_claim())[i]));
}

/// The textures a paint list samples, in order.
pub open spec fn live_of(items: Seq<Item>) -> Seq<TexKey>
    decreases items.len(),
{
    if items.len() == 0 {
        Seq::empty()
    } else {
        match items.last() {
            Item::Live(k) => live_of(items.drop_last()).push(k),
            _ => live_of(items.drop_last()),
        }
    }
}

/// What the frame loop has to know of a composed frame.
pub struct Tally {
    /// a live animation was sampled
    pub animating: bool,
    /// the feedbacks that the frame claims, in order
    pub claimed: Vec<u64>,
}

pub open spec fn samples_animation(items: Seq<Item>) -> bool {
    exists|i: int| 0 <= i < items.len() && #[trigger] items[i] is Animating
}

/// The feedbacks a paint list claims, in order.
pub open spec fn claims_of(items: Seq<Item>) -> Seq<u64>
    decreases items.len(),
{
    if items.len() == 0 {
        Seq::empty()
    } else {
        match items.last() {
            Item::Feedback(f) => claims_of(items.drop_last()).push(f),
            _ => claims_of(items.drop_last()),
        }
    }
}

pub fn tally(items: &Vec<Item>) -> (r: Tally)
    ensures
        r.animating == (exists|i: int| 0 <= i < items@.len() && #[trigger] items@[i] is Animating),
        r.claimed@ == claims_of(items@),
{
    let mut claimed: Vec<u64> = Vec::new();
    let mut animating: bool = false;
    for i in 0..items.len()
        invariant
            claimed@ == claims_of(items@.take(i as int)),
            animating == (exists|j: int| 0 <= j < i && #[trigger] items@[j] is Animating),
    {
        assert(items@.take(i + 1).drop_last() =~= items@.take(i as int));
        match items[i] {
            Item::Feedback(f) => claimed.push(f),
            Item::Animating => {
                assert(items@[i as int] is Animating);
                animating = true;
            },
            _ => {},
        }
    }
    assert(items@.take(items@.len() as int) =~= items@);
    Tally { animating, claimed }
}

/// A frame that is only captured claims no feedback, and one that is presented claims every
/// feedback its items hold.
pub proof fn only_presented_frames_claim(items: Seq<Item>, mode: CapCursor)
    ensures
        claims_of(claimed(items, mode)) == (if mode == CapCursor::Present { claims_of(items) } else { Seq::empty() }),
        samples_animation(claimed(items, mode)) == samples_animation(items),
{
    if mode != CapCursor::Present {
        let kept = items.filter(no_claim());
        assert forall|i: int| 0 <= i < kept.len() implies !(#[trigger] kept[i] is Feedback) by {
            captures_claim_nothing(items, mode, i);
        }
        nothing_to_claim(kept);
        broadcast use vstd::seq_lib::group_filter_ensures;

        if samples_animation(items) {
            let i = choose|i: int| 0 <= i < items.len() && #[trigger] items[i] is Animating;
            assert(no_claim()(items[i]));
            assert(kept.contains(items[i]));
            let j = choose|j: int| 0 <= j < kept.len() && kept[j] == items[i];
            assert(kept[j] is Animating);
        }
        if samples_animation(kept) {
            let j = choose|j: int| 0 <= j < kept.len() && #[trigger] kept[j] is Animating;
            filter_members(items, no_claim(), kept[j]);
            assert(kept.contains(kept[j]));
            let i = choose|i: int| 0 <= i < items.len() && items[i] == kept[j];
            assert(items[i] is Animating);
        }
    }
}

proof fn nothing_to_claim(items: Seq<Item>)
    requires
        forall|i: int| 0 <= i < items.len() ==> !(#[trigger] items[i] is Feedback),
    ensures
        claims_of(items) == Seq::<u64>::empty(),
    decreases items.len(),
{
    if items.len() > 0 {
        assert(!(items[items.len() - 1] is Feedback));
        assert forall|i: int| 0 <= i < items.drop_last().len() implies !(#[trigger] items.drop_last()[i] is Feedback) by {
            assert(items.drop_last()[i] == items[i]);
        }
        nothing_to_claim(items.drop_last());
    }
}

pub fn live_keys(items: &Vec<Item>) -> (r: Vec<TexKey>)
    ensures
        r@ == live_of(items@),
{
    let mut out: Vec<TexKey> = Vec::new();
    for i in 0..items.len()
        invariant
            out@ == live_of(items@.take(i as int)),
    {
        assert(items@.take(i + 1).drop_last() =~= items@.take(i as int));
        match items[i] {
            Item::Live(k) => out.push(k),
            _ => {},
        }
    }
    assert(items@.take(items@.len() as int) =~= items@);
    out
}

} // verus!
