//! The display stack: which heads are lit, where they sit, what each one shows
//! and when it may present.

pub mod boot;
pub mod bringup;
pub mod capture;
pub mod closing;
pub mod compose;
pub mod cursor;
pub mod frames;
pub mod painting;
pub mod placing;
pub mod present;
pub mod rearm;
pub mod scanout;
pub mod scene;
pub mod stacking;
pub mod supply;
pub mod tail;
pub mod textures;
pub mod topology;
pub mod wake;

use crate::output::cursor::{CursorImage, HeadCursor};
use crate::output::present::WsSwitch;
use crate::rect::Rect;
use crate::text::same_text;
use vstd::prelude::*;

verus! {

/// One lit head. `uid` is never reused, so it tells a surviving output from a
/// fresh one on the same connector.
pub struct Output {
    pub uid: u64,
    pub name: String,
    /// connector object id on the card
    pub conn: u32,
    pub width: u32,
    pub height: u32,
    /// slot in the display's output list
    pub index: usize,
    /// registry name of this output's wl_output global
    pub global_name: u32,
    /// global origin; outputs tile left to right
    pub pos: (i32, i32),
    /// the workspace this output currently shows
    pub ws: usize,
    /// global-space tiling box: the rect minus exclusive zones
    pub usable: Rect,
    /// vertical refresh of the current mode, when a pipe is assigned
    pub vrefresh: Option<u32>,
    /// the connector still reports a monitor
    pub connected: bool,
    /// scanout memory is a linear dumb buffer
    pub dumb: bool,
    /// which of the two scanout buffers is on glass
    pub front: usize,
    /// framebuffer ids of the two scanout buffers
    pub fbs: (u32, u32),
    /// vt elsewhere, or dark: nothing is rendered until resume
    pub paused: bool,
    /// a queued flip has not completed yet
    pub flip_pending: bool,
    /// the last compose sampled a live animation: the next frame is due without damage
    pub anim_pending: bool,
    /// the workspace switch that this output animates
    pub ws_switch: Option<WsSwitch>,
    pub cursor: HeadCursor,
}

/// All heads of the card, and the cursor as composited in software.
pub struct Display {
    pub outputs: Vec<Output>,
    /// current cursor image when compositing in software
    pub sw_image: Option<CursorImage>,
    pub sw_hot: (i32, i32),
    pub sw_hidden: bool,
    pub sw: bool,
    /// bumps when the image changes; outputs rebuild their texture on it
    pub sw_gen: u64,
    /// the screens are dark on request
    pub dpms_off: bool,
}

impl Output {
    pub open spec fn rect_spec(self) -> Rect {
        Rect::sized_saturating_spec(self.pos.0, self.pos.1, self.width as i32, self.height as i32)
    }

    /// The part of global space this output covers.
    pub fn rect(&self) -> (r: Rect)
        requires
            self.width <= i32::MAX,
            self.height <= i32::MAX,
        ensures
            r == self.rect_spec(),
    {
        Rect::new_sized_saturating(self.pos.0, self.pos.1, self.width as i32, self.height as i32)
    }

    pub open spec fn front_fb_spec(self) -> u32 {
        if self.front == 0 { self.fbs.0 } else { self.fbs.1 }
    }

    /// The framebuffer on glass.
    pub fn front_fb(&self) -> (r: u32)
        ensures
            r == self.front_fb_spec(),
    {
        if self.front == 0 { self.fbs.0 } else { self.fbs.1 }
    }
}

/// Sizes that fit the signed coordinates of global space.
pub open spec fn sizes_fit(outs: Seq<Output>) -> bool {
    forall|i: int| 0 <= i < outs.len() ==> (#[trigger] outs[i]).width <= i32::MAX && outs[i].height <= i32::MAX
}

/// The lowest slot whose element satisfies `p`.
pub open spec fn first_slot<A>(s: Seq<A>, p: spec_fn(A) -> bool) -> Option<int>
    decreases s.len(),
{
    if s.len() == 0 {
        None
    } else {
        match first_slot(s.drop_last(), p) {
            Some(k) => Some(k),
            None => if p(s.last()) { Some(s.len() - 1) } else { None },
        }
    }
}

/// What `first_slot` names: a slot that satisfies `p`, with none before it.
pub proof fn first_slot_is_lowest<A>(s: Seq<A>, p: spec_fn(A) -> bool)
    ensures
        match first_slot(s, p) {
            Some(k) => 0 <= k < s.len() && p(s[k]) && forall|j: int| 0 <= j < k ==> !p(#[trigger] s[j]),
            None => forall|j: int| 0 <= j < s.len() ==> !p(#[trigger] s[j]),
        },
    decreases s.len(),
{
    if s.len() > 0 {
        first_slot_is_lowest(s.drop_last(), p);
        assert(forall|j: int| 0 <= j < s.len() - 1 ==> s.drop_last()[j] == s[j]);
    }
}

/// A prefix without a match, followed by a match, fixes `first_slot`.
pub proof fn first_slot_found<A>(s: Seq<A>, p: spec_fn(A) -> bool, k: int)
    requires
        0 <= k < s.len(),
        p(s[k]),
        forall|j: int| 0 <= j < k ==> !p(#[trigger] s[j]),
    ensures
        first_slot(s, p) == Some(k),
{
    first_slot_is_lowest(s, p);
}

/// No match anywhere fixes `first_slot`.
pub proof fn first_slot_absent<A>(s: Seq<A>, p: spec_fn(A) -> bool)
    requires
        forall|j: int| 0 <= j < s.len() ==> !p(#[trigger] s[j]),
    ensures
        first_slot(s, p) is None,
{
    first_slot_is_lowest(s, p);
}

pub open spec fn named(name: Seq<char>) -> spec_fn(Output) -> bool {
    |o: Output| o.name@ == name
}

/// The slot of the output with this connector name.
pub fn slot_named(outs: &Vec<Output>, name: &str) -> (r: Option<usize>)
    ensures
        match r {
            Some(k) => first_slot(outs@, named(name@)) == Some(k as int) && k < outs@.len(),
            None => first_slot(outs@, named(name@)) is None,
        },
{
    for i in 0..outs.len()
        invariant
            forall|j: int| 0 <= j < i ==> !named(name@)(#[trigger] outs@[j]),
    {
        if same_text(outs[i].name.as_str(), name) {
            proof {
                first_slot_found(outs@, named(name@), i as int);
            }
            return Some(i);
        }
    }
    proof {
        first_slot_absent(outs@, named(name@));
    }
    None
}

/// Slot and size of a named output, for the capture protocols.
pub fn output_geometry(outs: &Vec<Output>, name: &str) -> (r: Option<(usize, u32, u32)>)
    ensures
        match first_slot(outs@, named(name@)) {
            Some(k) => r == Some((outs@[k].index, outs@[k].width, outs@[k].height)),
            None => r is None,
        },
{
    match slot_named(outs, name) {
        Some(k) => {
            proof {
                first_slot_is_lowest(outs@, named(name@));
            }
            Some((outs[k].index, outs[k].width, outs[k].height))
        },
        None => None,
    }
}

pub open spec fn covers(x: int, y: int) -> spec_fn(Output) -> bool {
    |o: Output| o.rect_spec().contains_spec(x, y)
}

/// What a wl_output global announces.
pub struct OutputGlobal {
    pub name: String,
    pub x: i32,
    pub y: i32,
    pub width: i32,
    pub height: i32,
    pub refresh_mhz: i32,
}

impl Display {
    /// The output whose rect contains the global point.
    pub fn output_at(&self, x: i32, y: i32) -> (r: Option<usize>)
        requires
            sizes_fit(self.outputs@),
        ensures
            match r {
                Some(k) => first_slot(self.outputs@, covers(x as int, y as int)) == Some(k as int) && k < self.outputs@.len(),
                None => first_slot(self.outputs@, covers(x as int, y as int)) is None,
            },
    {
        for i in 0..self.outputs.len()
            invariant
                sizes_fit(self.outputs@),
                forall|j: int| 0 <= j < i ==> !covers(x as int, y as int)(#[trigger] self.outputs@[j]),
        {
            if self.outputs[i].rect().contains(x, y) {
                proof {
                    first_slot_found(self.outputs@, covers(x as int, y as int), i as int);
                }
                return Some(i);
            }
        }
        proof {
            first_slot_absent(self.outputs@, covers(x as int, y as int));
        }
        None
    }

    /// The global an output registers; a head without a pipe claims 60 Hz.
    pub fn output_global(&self, out: &Output) -> (g: OutputGlobal)
        requires
            out.width <= i32::MAX,
            out.height <= i32::MAX,
            out.vrefresh is Some ==> out.vrefresh->0 <= 2_147_483,
        ensures
            g.name == out.name,
            g.x == out.pos.0,
            g.y == out.pos.1,
            g.width == out.width,
            g.height == out.height,
            g.refresh_mhz == 1000 * (match out.vrefresh {
                Some(hz) => hz,
                None => 60u32,
            }),
    {
        let hz: u32 = match out.vrefresh {
            Some(hz) => hz,
            None => 60,
        };
        OutputGlobal {
            name: out.name.clone(),
            x: out.pos.0,
            y: out.pos.1,
            width: out.width as i32,
            height: out.height as i32,
            refresh_mhz: hz as i32 * 1000,
        }
    }
}

/// The least left edge and the farthest right edge of the first `n` outputs.
pub open spec fn glass_x(outs: Seq<Output>, n: nat) -> (int, int)
    decreases n,
{
    if n <= 1 {
        (outs[0].rect_spec().x1 as int, outs[0].rect_spec().x2 as int)
    } else {
        let (lo, hi) = glass_x(outs, (n - 1) as nat);
        let r = outs[n - 1].rect_spec();
        (if r.x1 < lo { r.x1 as int } else { lo }, if r.x2 > hi { r.x2 as int } else { hi })
    }
}

/// The horizontal range of the pointer: the union of the outputs, last column
/// included. `None` without outputs.
pub fn pointer_span(outs: &Vec<Output>) -> (r: Option<(i32, i32)>)
    requires
        sizes_fit(outs@),
    ensures
        r is Some <==> outs@.len() > 0,
        r matches Some((lo, hi)) ==> {
            let (a, b) = glass_x(outs@, outs@.len());
            &&& lo == a
            &&& hi == (if b - 1 > a { b - 1 } else { a })
        },
{
    if outs.len() == 0 {
        return None;
    }
    let first: Rect = outs[0].rect();
    let mut lo: i32 = first.x1;
    let mut hi: i32 = first.x2;
    let mut i: usize = 1;
    while i < outs.len()
        invariant
            sizes_fit(outs@),
            1 <= i <= outs@.len(),
            (lo as int, hi as int) == glass_x(outs@, i as nat),
        decreases outs@.len() - i,
    {
        let r: Rect = outs[i].rect();
        if r.x1 < lo {
            lo = r.x1;
        }
        if r.x2 > hi {
            hi = r.x2;
        }
        i = i + 1;
    }
    let edge: i32 = if hi > lo { hi - 1 } else { lo };
    Some((lo, edge))
}

pub open spec fn spans_column(x: int) -> spec_fn(Output) -> bool {
    |o: Output| o.rect_spec().x1 <= x < o.rect_spec().x2
}

/// The vertical range of the pointer in column `x`: that of the output there,
/// else of the first output.
pub fn pointer_column(outs: &Vec<Output>, x: i32) -> (r: (i32, i32))
    requires
        sizes_fit(outs@),
        outs@.len() > 0,
    ensures
        ({
            let k = match first_slot(outs@, spans_column(x as int)) {
                Some(k) => k,
                None => 0,
            };
            let o = outs@[k].rect_spec();
            &&& r.0 == o.y1
            &&& r.1 == (if o.y2 - 1 > o.y1 { o.y2 - 1 } else { o.y1 as int })
        }),
{
    let mut k: usize = 0;
    let mut i: usize = 0;
    let mut found: bool = false;
    while i < outs.len() && !found
        invariant
            sizes_fit(outs@),
            i <= outs@.len(),
            outs@.len() > 0,
            k < outs@.len(),
            !found ==> k == 0 && forall|j: int| 0 <= j < i ==> !spans_column(x as int)(#[trigger] outs@[j]),
            found ==> first_slot(outs@, spans_column(x as int)) == Some(k as int),
        decreases outs@.len() - i + (if found { 0int } else { 1 }),
    {
        let r: Rect = outs[i].rect();
        if x >= r.x1 && x < r.x2 {
            proof {
                first_slot_found(outs@, spans_column(x as int), i as int);
            }
            k = i;
            found = true;
        } else {
            i = i + 1;
        }
    }
    proof {
        if !found {
            first_slot_absent(outs@, spans_column(x as int));
        }
    }
    let r: Rect = outs[k].rect();
    (r.y1, if r.y2 > r.y1 { r.y2 - 1 } else { r.y1 })
}

/// A screen edge.
#[derive(Clone, Copy, Debug, PartialEq, Eq, Structural)]
pub enum Dir {
    Up,
    Down,
    Left,
    Right,
}

/// How far a box is from an edge of its output.
pub open spec fn edge_gap(out: Output, r: Rect, d: Dir) -> int {
    match d {
        Dir::Up => r.y1 - out.pos.1,
        Dir::Down => out.pos.1 + out.height - r.y2,
        Dir::Left => r.x1 - out.pos.0,
        Dir::Right => out.pos.0 + out.width - r.x2,
    }
}

/// The nearest edge; up before down before left before right among equals.
pub open spec fn nearest_edge_spec(out: Output, r: Rect) -> Dir {
    let u = edge_gap(out, r, Dir::Up);
    let d = edge_gap(out, r, Dir::Down);
    let l = edge_gap(out, r, Dir::Left);
    let g = edge_gap(out, r, Dir::Right);
    if u <= d && u <= l && u <= g {
        Dir::Up
    } else if d <= l && d <= g {
        Dir::Down
    } else if l <= g {
        Dir::Left
    } else {
        Dir::Right
    }
}

/// The offset that parks a box just past an edge of its output.
pub open spec fn slid(out: Output, r: Rect, d: Dir) -> (int, int) {
    match d {
        Dir::Left => (-(r.x2 - out.pos.0), 0),
        Dir::Right => (out.pos.0 + out.width - r.x1, 0),
        Dir::Up => (0, -(r.y2 - out.pos.1)),
        Dir::Down => (0, out.pos.1 + out.height - r.y1),
    }
}

/// The pixel offset that parks a box just past an edge; without a direction the
/// nearest edge is taken.
pub fn slide_offset(out: &Output, r: Rect, dir: Option<Dir>) -> (o: (i64, i64))
    ensures
        ({
            let d = match dir {
                Some(d) => d,
                None => nearest_edge_spec(*out, r),
            };
            (o.0 as int, o.1 as int) == slid(*out, r, d)
        }),
{
    let (gx, gy) = (out.pos.0 as i64, out.pos.1 as i64);
    let (w, h) = (out.width as i64, out.height as i64);
    let u: i64 = r.y1 as i64 - gy;
    let d: i64 = gy + h - r.y2 as i64;
    let l: i64 = r.x1 as i64 - gx;
    let g: i64 = gx + w - r.x2 as i64;
    let to: Dir = match dir {
        Some(t) => t,
        None => if u <= d && u <= l && u <= g {
            Dir::Up
        } else if d <= l && d <= g {
            Dir::Down
        } else if l <= g {
            Dir::Left
        } else {
            Dir::Right
        },
    };
    match to {
        Dir::Up => (0, gy - r.y2 as i64),
        Dir::Down => (0, gy + h - r.y1 as i64),
        Dir::Left => (gx - r.x2 as i64, 0),
        Dir::Right => (gx + w - r.x1 as i64, 0),
    }
}

/// A box moved by its slide offset is past the edge: it shares no point with its
/// output.
pub proof fn slid_boxes_are_out_of_sight(out: Output, r: Rect, d: Dir, x: int, y: int)
    requires
        r.contains_spec(x, y),
    ensures
        ({
            let (dx, dy) = slid(out, r, d);
            !(out.pos.0 <= x + dx < out.pos.0 + out.width && out.pos.1 <= y + dy < out.pos.1 + out.height)
        }),
{
}

/// What a netlink message asks for.
#[derive(Clone, Copy, Debug, PartialEq, Eq, Structural)]
pub enum Hotplug {
    Ignore,
    /// connectors changed: probe them again
    Rescan,
    /// an input node appeared: take it once its permissions settled
    AddInput,
    RemoveInput { devnum: u64 },
}

/// Reads a netlink message's outcome: a card change first, then an input node
/// that came or went. One that went without a device number is left alone.
pub fn hotplug_action(card_change: bool, input_added: Option<bool>, devnum: Option<u64>) -> (r: Hotplug)
    ensures
        r == (if card_change {
            Hotplug::Rescan
        } else {
            match input_added {
                None => Hotplug::Ignore,
                Some(true) => Hotplug::AddInput,
                Some(false) => match devnum {
                    Some(n) => Hotplug::RemoveInput { devnum: n },
                    None => Hotplug::Ignore,
                },
            }
        }),
{
    if card_change {
        return Hotplug::Rescan;
    }
    match input_added {
        None => Hotplug::Ignore,
        Some(added) => if added {
            Hotplug::AddInput
        } else {
            match devnum {
                Some(n) => Hotplug::RemoveInput { devnum: n },
                None => Hotplug::Ignore,
            }
        },
    }
}

} // verus!
