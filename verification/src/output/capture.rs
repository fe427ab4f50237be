//! Captures: what is drawn for one, and the crop of the frame that is read back. Pixels
//! are four bytes, rows tightly packed.
use crate::output::compose::{
    claimed, compose, ends_switch, frame_items, pointer_fits, samples_animation, scene_fits, sweeps, swept, tally,
    CapCursor, Scene,
};
use crate::output::scene::{
    draw_surface_tree, drop_claims, in_i32, no_claim, tree_fits, tree_items, Item, Pen, SurfaceNode, FULL_ALPHA,
};
use crate::output::textures::TexCache;
use crate::output::{sizes_fit, Display, Output};
use crate::protocol::session_lock::LockSlot;
use crate::rect::Rect;
use vstd::prelude::*;

verus! {

/// Byte `i` of a picture of `w` pixels per row: its row.
pub open spec fn byte_row(i: int, w: int) -> int {
    i / (w * 4)
}

/// Byte `i` of a picture of `w` pixels per row: its place in the row.
pub open spec fn byte_col(i: int, w: int) -> int {
    i % (w * 4)
}

pub(crate) proof fn place_of_byte(row: int, col: int, w: int)
    requires
        0 <= row,
        0 <= col < w * 4,
    ensures
        byte_row(row * (w * 4) + col, w) == row,
        byte_col(row * (w * 4) + col, w) == col,
{
    vstd::arithmetic::div_mod::lemma_fundamental_div_mod_converse(row * (w * 4) + col, w * 4, row, col);
}

proof fn inside_frame(row: int, col: int, w: int, h: int)
    requires
        0 <= row < h,
        0 <= col < w * 4,
    ensures
        0 <= row * (w * 4) + col < w * h * 4,
{
    assert(0 <= row * (w * 4) + col < w * h * 4) by (nonlinear_arith)
        requires
            0 <= row < h,
            0 <= col < w * 4,
    ;
}

/// Where byte `i` of the crop comes from in a frame of `w` pixels per row.
pub open spec fn crop_source(region: Rect, w: int, i: int) -> int {
    let rw = region.x2 - region.x1;
    (region.y1 + byte_row(i, rw)) * (w * 4) + region.x1 * 4 + byte_col(i, rw)
}

/// The part of a `w` by `h` frame that an output-local region covers.
pub fn screencopy(full: &Vec<u8>, w: u32, h: u32, region: Rect) -> (px: Vec<u8>)
    requires
        full@.len() == w * h * 4,
        0 <= region.x1 <= region.x2 <= w,
        0 <= region.y1 <= region.y2 <= h,
    ensures
        px@.len() == (region.x2 - region.x1) * (region.y2 - region.y1) * 4,
        forall|i: int| 0 <= i < px@.len() ==> #[trigger] px@[i] == full@[crop_source(region, w as int, i)],
{
    let ghost rw = region.x2 - region.x1;
    let ghost rh = region.y2 - region.y1;
    let mut px: Vec<u8> = Vec::new();
    let mut row: u32 = region.y1 as u32;
    let bottom: u32 = region.y2 as u32;
    let left: usize = region.x1 as usize;
    let cols: usize = (region.x2 - region.x1) as usize;
    let frame: usize = full.len();
    assert(0 * (rw * 4) == 0) by (nonlinear_arith);
    while row < bottom
        invariant
            frame == full.len(),
            full@.len() == w * h * 4,
            0 <= region.x1 <= region.x2 <= w,
            0 <= region.y1 <= row <= region.y2 <= h,
            bottom == region.y2,
            left == region.x1,
            cols == rw,
            rw == region.x2 - region.x1,
            px@.len() == (row - region.y1) * (rw * 4),
            forall|i: int| 0 <= i < px@.len() ==> #[trigger] px@[i] == full@[crop_source(region, w as int, i)],
        decreases bottom - row,
    {
        let ghost r = row - region.y1;
        let mut col: usize = 0;
        proof {
            assert(row * (w * 4) >= 0) by (nonlinear_arith)
                requires
                    row >= 0,
                    w >= 0,
            ;
            if w > 0 {
                inside_frame(row as int, w * 4 - 1, w as int, h as int);
            }
        }
        let start: usize = frame_offset(row, w, h, frame);
        let width4: usize = cols * 4;
        while col < width4
            invariant
                frame == full.len(),
                full@.len() == w * h * 4,
                0 <= region.x1 <= region.x2 <= w,
                0 <= region.y1 <= row < region.y2 <= h,
                left == region.x1,
                cols == rw,
                rw == region.x2 - region.x1,
                width4 == rw * 4,
                col <= width4,
                r == row - region.y1,
                start == row * (w * 4),
                px@.len() == r * (rw * 4) + col,
                forall|i: int|
                    0 <= i < px@.len() ==> #[trigger] px@[i] == full@[crop_source(region, w as int, i)],
            decreases width4 - col,
        {
            proof {
                place_of_byte(r, col as int, rw);
                inside_frame(row as int, left * 4 + col, w as int, h as int);
            }
            px.push(full[start + left * 4 + col]);
            col = col + 1;
        }
        proof {
            assert((r + 1) * (rw * 4) == r * (rw * 4) + rw * 4) by (nonlinear_arith);
        }
        row = row + 1;
    }
    assert(rh * (rw * 4) == rw * rh * 4) by (nonlinear_arith);
    px
}

/// The first byte of a row.
fn frame_offset(row: u32, w: u32, h: u32, frame: usize) -> (r: usize)
    requires
        row < h,
        frame == w * h * 4,
    ensures
        r == row * (w * 4),
{
    proof {
        assert(0 <= row * (w * 4) <= w * h * 4) by (nonlinear_arith)
            requires
                0 <= row < h,
                0 <= w,
        ;
        assert(row as u64 * (w as u64 * 4) == row * (w * 4));
    }
    (row as u64 * (w as u64 * 4)) as usize
}

/// Byte `i` of a window picture: the frame's byte where the pixel is on the
/// output, black where the window hangs off the screen.
pub open spec fn window_byte(full: Seq<u8>, out: Rect, w: int, rect: Rect, i: int) -> u8 {
    let rw = rect.x2 - rect.x1;
    let gx = rect.x1 + byte_col(i, rw) / 4;
    let gy = rect.y1 + byte_row(i, rw);
    if out.contains_spec(gx, gy) {
        full[(gy - out.y1) * (w * 4) + (gx - out.x1) * 4 + byte_col(i, rw) % 4]
    } else {
        0
    }
}

/// Cuts a window out of its output's frame.
pub fn window_capture(full: &Vec<u8>, out: &Output, rect: Rect) -> (px: Vec<u8>)
    requires
        out.width <= i32::MAX,
        out.height <= i32::MAX,
        full@.len() == out.width * out.height * 4,
        rect.wf(),
        !rect.empty_spec(),
        (rect.x2 - rect.x1) * (rect.y2 - rect.y1) * 4 <= usize::MAX,
    ensures
        px@.len() == (rect.x2 - rect.x1) * (rect.y2 - rect.y1) * 4,
        forall|i: int|
            0 <= i < px@.len() ==> #[trigger] px@[i] == window_byte(
                full@,
                out.rect_spec(),
                out.width as int,
                rect,
                i,
            ),
{
    let ghost rw = rect.x2 - rect.x1;
    let ghost rh = rect.y2 - rect.y1;
    let screen: Rect = out.rect();
    let frame: usize = full.len();
    let w: u32 = out.width;
    let mut px: Vec<u8> = Vec::new();
    let mut gy: i32 = rect.y1;
    assert(0 * (rw * 4) == 0) by (nonlinear_arith);
    while gy < rect.y2
        invariant
            frame == full.len(),
            screen == out.rect_spec(),
            w == out.width,
            out.width <= i32::MAX,
            out.height <= i32::MAX,
            full@.len() == out.width * out.height * 4,
            rect.wf(),
            !rect.empty_spec(),
            rw == rect.x2 - rect.x1,
            rect.y1 <= gy <= rect.y2,
            px@.len() == (gy - rect.y1) * (rw * 4),
            forall|i: int|
                0 <= i < px@.len() ==> #[trigger] px@[i] == window_byte(full@, screen, w as int, rect, i),
        decreases rect.y2 - gy,
    {
        let ghost r = gy - rect.y1;
        let mut gx: i32 = rect.x1;
        while gx < rect.x2
            invariant
                frame == full.len(),
                screen == out.rect_spec(),
                w == out.width,
                out.width <= i32::MAX,
                out.height <= i32::MAX,
                full@.len() == out.width * out.height * 4,
                rect.wf(),
                rw == rect.x2 - rect.x1,
                rect.y1 <= gy < rect.y2,
                rect.x1 <= gx <= rect.x2,
                r == gy - rect.y1,
                px@.len() == r * (rw * 4) + (gx - rect.x1) * 4,
                forall|i: int|
                    0 <= i < px@.len() ==> #[trigger] px@[i] == window_byte(full@, screen, w as int, rect, i),
            decreases rect.x2 - gx,
        {
            let ghost c = (gx - rect.x1) * 4;
            proof {
                place_of_byte(r, c, rw);
                place_of_byte(r, c + 1, rw);
                place_of_byte(r, c + 2, rw);
                place_of_byte(r, c + 3, rw);
            }
            if screen.contains(gx, gy) {
                let row: u32 = (gy - screen.y1) as u32;
                let left: usize = (gx - screen.x1) as usize;
                proof {
                    inside_frame(row as int, left * 4, w as int, out.height as int);
                    inside_frame(row as int, left * 4 + 3, w as int, out.height as int);
                }
                let start: usize = frame_offset(row, w, out.height, frame) + left * 4;
                px.push(full[start]);
                px.push(full[start + 1]);
                px.push(full[start + 2]);
                px.push(full[start + 3]);
            } else {
                px.push(0);
                px.push(0);
                px.push(0);
                px.push(0);
            }
            gx = gx + 1;
        }
        proof {
            assert((r + 1) * (rw * 4) == r * (rw * 4) + rw * 4) by (nonlinear_arith);
        }
        gy = gy + 1;
    }
    assert(rh * (rw * 4) == rw * rh * 4) by (nonlinear_arith);
    px
}

/// The output a workspace is captured on: the one it is bound to, else the first.
pub open spec fn capture_slot_spec(bound: Seq<usize>, n_outs: nat, ws: usize) -> Option<int> {
    if ws >= bound.len() || n_outs == 0 {
        None
    } else if bound[ws as int] < n_outs {
        Some(bound[ws as int] as int)
    } else {
        Some(0)
    }
}

pub fn capture_slot(bound: &Vec<usize>, n_outs: usize, ws: usize) -> (r: Option<usize>)
    ensures
        match r {
            Some(k) => capture_slot_spec(bound@, n_outs as nat, ws) == Some(k as int),
            None => capture_slot_spec(bound@, n_outs as nat, ws) is None,
        },
{
    if ws >= bound.len() || n_outs == 0 {
        return None;
    }
    let slot: usize = bound[ws];
    if slot < n_outs { Some(slot) } else { Some(0) }
}

/// How a window is drawn for a capture: on its output, cut to its box, opaque and with
/// square corners.
pub open spec fn capture_pen(out: Output, rect: Rect) -> Pen {
    Pen { pos: out.pos, clip: rect, alpha: FULL_ALPHA, solid: true, round: 0 }
}

/// What to draw for a capture of a window in the box `rect`, and on which output: its
/// own surfaces without borders, popups or rules. Nothing when it is not mapped, is in
/// no workspace, or its box is empty. `geo` is the origin of its geometry.
pub fn window_plan(
    bound: &Vec<usize>,
    ws: Option<usize>,
    outs: &Vec<Output>,
    n: &SurfaceNode,
    rect: Rect,
    geo: (i32, i32),
    cache: &TexCache,
) -> (r: Option<(usize, Vec<Item>)>)
    requires
        in_i32(rect.x1 - geo.0),
        in_i32(rect.y1 - geo.1),
        tree_fits(*n, rect.x1 - geo.0, rect.y1 - geo.1),
    ensures
        ({
            let slot = match ws {
                Some(w) => capture_slot_spec(bound@, outs@.len(), w),
                None => None,
            };
            match slot {
                Some(k) if n.info.mapped && !rect.empty_spec() => r matches Some(p) && p.0 == k && p.1@ == tree_items(
                    capture_pen(outs@[k], rect),
                    cache.entries@,
                    *n,
                    rect.x1 - geo.0,
                    rect.y1 - geo.1,
                ).filter(no_claim()),
                _ => r is None,
            }
        }),
{
    if !n.info.mapped {
        return None;
    }
    let slot: usize = match ws {
        None => {
            return None;
        },
        Some(w) => match capture_slot(bound, outs.len(), w) {
            None => {
                return None;
            },
            Some(k) => k,
        },
    };
    if rect.is_empty() {
        return None;
    }
    let pen: Pen = Pen { pos: outs[slot].pos, clip: rect, alpha: FULL_ALPHA, solid: true, round: 0 };
    let mut items: Vec<Item> = Vec::new();
    draw_surface_tree(pen, cache, n, rect.x1 - geo.0, rect.y1 - geo.1, &mut items);
    assert(items@ =~= tree_items(pen, cache.entries@, *n, rect.x1 - geo.0, rect.y1 - geo.1));
    drop_claims(&mut items);
    Some((slot, items))
}

/// The display after a compose on the side of the head in `slot`: whether it sampled an
/// animation decides whether the head's next frame is due, and a switch that is over ends.
pub open spec fn noted(a: Display, b: Display, slot: usize, items: Seq<Item>, over: bool) -> bool {
    let o = a.outputs@[slot as int];
    &&& b.outputs@ == a.outputs@.update(
        slot as int,
        Output {
            anim_pending: samples_animation(items),
            ws_switch: if over { None } else { o.ws_switch },
            ..o
        },
    )
    &&& b == (Display { outputs: b.outputs, ..a })
}

/// The textures after a compose.
pub open spec fn let_go(a: TexCache, b: TexCache, items: Seq<Item>, sweep: bool) -> bool {
    if sweep { swept(a, b, items) } else { b == a }
}

fn compose_aside(
    s: &Scene,
    d: &mut Display,
    lock: &mut LockSlot,
    cache: &mut TexCache,
    slot: usize,
    mode: CapCursor,
    ws_override: Option<usize>,
) -> (items: Vec<Item>)
    requires
        slot < old(d).outputs@.len(),
        scene_fits(*s, old(d).outputs@[slot as int]),
        sizes_fit(old(d).outputs@),
        pointer_fits(*old(d), slot, s.pointer),
        old(cache).wf(),
        mode != CapCursor::Present,
    ensures
        *final(lock) == *old(lock),
        items@ == claimed(frame_items(*s, *old(d), *old(lock), old(cache).entries@, slot, mode, ws_override), mode),
        final(cache).wf(),
        let_go(*old(cache), *final(cache), items@, sweeps(*s, *old(d), *old(lock), slot, ws_override)),
        noted(
            *old(d),
            *final(d),
            slot,
            items@,
            ends_switch(*s, *old(d), *old(lock), slot, ws_override),
        ),
{
    let items: Vec<Item> = compose(s, d, lock, cache, slot, mode, ws_override);
    d.outputs[slot].anim_pending = tally(&items).animating;
    proof {
        let over = ends_switch(*s, *old(d), *old(lock), slot, ws_override);
        let o = old(d).outputs@[slot as int];
        assert(d.outputs@ =~= old(d).outputs@.update(
            slot as int,
            Output {
                anim_pending: samples_animation(items@),
                ws_switch: if over { None } else { o.ws_switch },
                ..o
            },
        ));
    }
    items
}

/// A capture of the output in `slot`, with or without the cursor.
pub fn output_copy(
    s: &Scene,
    d: &mut Display,
    lock: &mut LockSlot,
    cache: &mut TexCache,
    slot: usize,
    cursor: bool,
) -> (items: Vec<Item>)
    requires
        slot < old(d).outputs@.len(),
        scene_fits(*s, old(d).outputs@[slot as int]),
        sizes_fit(old(d).outputs@),
        pointer_fits(*old(d), slot, s.pointer),
        old(cache).wf(),
    ensures
        *final(lock) == *old(lock),
        ({
            let mode = if cursor { CapCursor::Always } else { CapCursor::Never };
            items@ == claimed(frame_items(*s, *old(d), *old(lock), old(cache).entries@, slot, mode, None), mode)
        }),
        final(cache).wf(),
        let_go(*old(cache), *final(cache), items@, sweeps(*s, *old(d), *old(lock), slot, None)),
        noted(*old(d), *final(d), slot, items@, ends_switch(*s, *old(d), *old(lock), slot, None)),
{
    let mode: CapCursor = if cursor {
        CapCursor::Always
    } else {
        CapCursor::Never
    };
    compose_aside(s, d, lock, cache, slot, mode, None)
}

/// A workspace, shown or not, composed on the side for a capture at the size of its
/// output: no cursor, no drag icon, and no texture is let go, unless the session is locked.
/// Says which output; nothing without a workspace or an output.
pub fn workspace_copy(
    s: &Scene,
    d: &mut Display,
    lock: &mut LockSlot,
    bound: &Vec<usize>,
    cache: &mut TexCache,
    ws: usize,
) -> (r: Option<(usize, Vec<Item>)>)
    requires
        sizes_fit(old(d).outputs@),
        forall|k: usize|
            k < old(d).outputs@.len() ==> #[trigger] pointer_fits(*old(d), k, s.pointer) && scene_fits(
                *s,
                old(d).outputs@[k as int],
            ),
        old(cache).wf(),
    ensures
        *final(lock) == *old(lock),
        final(cache).wf(),
        match capture_slot_spec(bound@, old(d).outputs@.len(), ws) {
            None => r is None && *final(d) == *old(d) && *final(cache) == *old(cache),
            Some(k) => {
                &&& r matches Some(c)
                &&& c.0 == k
                &&& c.1@ == claimed(
                    frame_items(*s, *old(d), *old(lock), old(cache).entries@, c.0, CapCursor::Never, Some(ws)),
                    CapCursor::Never,
                )
                &&& let_go(*old(cache), *final(cache), c.1@, old(lock).lock is Some)
                &&& noted(
                    *old(d),
                    *final(d),
                    c.0,
                    c.1@,
                    ends_switch(*s, *old(d), *old(lock), c.0, Some(ws)),
                )
            },
        },
{
    match capture_slot(bound, d.outputs.len(), ws) {
        None => None,
        Some(k) => {
            assert(pointer_fits(*d, k, s.pointer));
            Some((k, compose_aside(s, d, lock, cache, k, CapCursor::Never, Some(ws))))
        },
    }
}

} // verus!
