//! The pointer image: hardware planes, the software fallback, and the built-in
//! arrow.
use crate::output::{Display, Output};
use crate::rect::Rect;
use vstd::prelude::*;

verus! {

/// A cursor picture: a key for its pixels, its size and its hotspot.
#[derive(Clone, Copy, Debug)]
pub struct CursorImage {
    pub pixels: u64,
    pub width: u32,
    pub height: u32,
    pub hot: (i32, i32),
}

/// One hardware cursor plane.
#[derive(Clone, Copy, Debug)]
pub struct CursorPlane {
    pub enabled: bool,
    pub x: i32,
    pub y: i32,
    pub hotspot: (i32, i32),
    /// the picture last written to the plane, as pixel key and size
    pub image: Option<(u64, u32, u32)>,
    /// changes wait for a commit
    pub commit: bool,
}

/// The cursor state of one head.
#[derive(Clone, Copy, Debug)]
pub struct HeadCursor {
    /// queued motion must not re-arm the cursor while the vt is leaving
    pub locked: bool,
    /// the focused client asked for no cursor
    pub client_hidden: bool,
    /// theme image, restored whenever a client cursor goes away
    pub theme: Option<CursorImage>,
    /// `None` on joined pipes, where the frame carries the cursor
    pub plane: Option<CursorPlane>,
    /// an unlock is pending for a switch that never pauses us
    pub rearm: bool,
    /// generation of the uploaded software texture
    pub generation: u64,
    pub textured: bool,
}

pub const ARROW_W: u32 = 12;

pub const ARROW_H: u32 = 19;

/// Whether the arrow covers this cell.
pub open spec fn arrow_inside(x: int, y: int) -> bool {
    x <= y && (y < 12 || (x >= 3 && y < 19 - (x - 3)))
}

/// Whether a covered cell belongs to the black outline.
pub open spec fn arrow_edge(x: int, y: int) -> bool {
    x == 0 || x == y || y == 18 || (y == 11 && x > 6)
}

/// Channel `c` of a cell: black outline, white fill, transparent elsewhere.
pub open spec fn arrow_byte(x: int, y: int, c: int) -> u8 {
    if !arrow_inside(x, y) {
        0
    } else if c == 3 {
        0xff
    } else if arrow_edge(x, y) {
        0
    } else {
        0xff
    }
}

/// A plain white-on-black arrow so the cursor exists before themes do.
pub fn default_cursor() -> (r: (Vec<u8>, u32, u32))
    ensures
        r.1 == 12,
        r.2 == 19,
        r.0@.len() == 912,
        forall|k: int| 0 <= k < 912 ==> #[trigger] r.0@[k] == arrow_byte((k / 4) % 12, (k / 4) / 12, k % 4),
{
    let mut px: Vec<u8> = Vec::new();
    for k in 0..912
        invariant
            px@.len() == k,
            forall|j: int| 0 <= j < k ==> #[trigger] px@[j] == arrow_byte((j / 4) % 12, (j / 4) / 12, j % 4),
    {
        let cell: i32 = k / 4;
        let x: i32 = cell % 12;
        let y: i32 = cell / 12;
        let inside: bool = x <= y && (y < 12 || (x >= 3 && y < 19 - (x - 3)));
        let edge: bool = x == 0 || x == y || y == 18 || (y == 11 && x > 6);
        let b: u8 = if !inside {
            0
        } else if k % 4 == 3 {
            0xff
        } else if edge {
            0
        } else {
            0xff
        };
        px.push(b);
    }
    (px, ARROW_W, ARROW_H)
}

pub open spec fn with_cursor(o: Output, c: HeadCursor) -> Output {
    Output { cursor: c, ..o }
}

/// Whether the head under the point may show its plane.
pub open spec fn pointer_inside(o: Output, x: i32, y: i32) -> bool {
    o.rect_spec().contains_spec(x as int, y as int) && !o.cursor.client_hidden
}

/// One head after the pointer moved to `(x, y)` on hardware planes.
pub open spec fn moved_head(x: i32, y: i32) -> spec_fn(Output) -> Output {
    |o: Output|
        if o.cursor.locked || o.vrefresh is None {
            o
        } else {
            match o.cursor.plane {
                None => o,
                Some(p) => with_cursor(o, HeadCursor {
                    plane: Some(
                        if pointer_inside(o, x, y) {
                            CursorPlane {
                                enabled: true,
                                x: (x - o.pos.0 - p.hotspot.0) as i32,
                                y: (y - o.pos.1 - p.hotspot.1) as i32,
                                commit: true,
                                ..p
                            }
                        } else {
                            CursorPlane { enabled: false, commit: true, ..p }
                        },
                    ),
                    ..o.cursor
                }),
            }
        }
}

/// A head without a plane redraws when the pointer is over it.
pub open spec fn moved_damages(x: i32, y: i32) -> spec_fn(Output) -> bool {
    |o: Output|
        !o.cursor.locked && o.vrefresh is Some && o.cursor.plane is None && pointer_inside(o, x, y)
}

/// The plane coordinates that a move computes fit in an `i32`.
pub open spec fn move_fits(o: Output, x: i32, y: i32) -> bool {
    match o.cursor.plane {
        None => true,
        Some(p) => pointer_inside(o, x, y) ==> {
            &&& i32::MIN <= x - o.pos.0 - p.hotspot.0 <= i32::MAX
            &&& i32::MIN <= y - o.pos.1 - p.hotspot.1 <= i32::MAX
        },
    }
}

/// The picture a head is given; position decides which plane is enabled.
pub open spec fn imaged_head(img: CursorImage) -> spec_fn(Output) -> Output {
    |o: Output|
        with_cursor(o, HeadCursor {
            client_hidden: false,
            plane: match o.cursor.plane {
                None => None,
                Some(p) => Some(
                    CursorPlane {
                        image: Some((img.pixels, img.width, img.height)),
                        hotspot: img.hot,
                        commit: true,
                        ..p
                    },
                ),
            },
            ..o.cursor
        })
}

pub open spec fn themed_head() -> spec_fn(Output) -> Output {
    |o: Output|
        match o.cursor.theme {
            None => o,
            Some(img) => imaged_head(img)(o),
        }
}

pub open spec fn hidden_head(hidden: bool) -> spec_fn(Output) -> Output {
    |o: Output|
        with_cursor(o, HeadCursor {
            client_hidden: hidden,
            plane: match o.cursor.plane {
                None => None,
                Some(p) => Some(
                    CursorPlane { enabled: !hidden && !o.cursor.locked, commit: true, ..p },
                ),
            },
            ..o.cursor
        })
}

pub open spec fn benched_head() -> spec_fn(Output) -> Output {
    |o: Output|
        with_cursor(o, HeadCursor {
            plane: match o.cursor.plane {
                None => None,
                Some(p) => Some(CursorPlane { enabled: false, commit: true, ..p }),
            },
            ..o.cursor
        })
}

/// A head whose vt is about to leave: plane dark, motion locked out, unlock armed.
pub open spec fn leaving_head() -> spec_fn(Output) -> Output {
    |o: Output|
        with_cursor(o, HeadCursor { locked: true, rearm: true, ..(benched_head()(o).cursor) })
}

pub open spec fn theme_of_first(outs: Seq<Output>) -> Option<CursorImage> {
    if outs.len() == 0 { None } else { outs[0].cursor.theme }
}

/// Every head after `f`.
pub open spec fn each(outs: Seq<Output>, f: spec_fn(Output) -> Output) -> Seq<Output> {
    Seq::new(outs.len(), |i: int| f(outs[i]))
}

fn bench(o: &mut Output)
    ensures
        *final(o) == benched_head()(*old(o)),
{
    match o.cursor.plane {
        None => {},
        Some(p) => {
            o.cursor.plane = Some(CursorPlane { enabled: false, commit: true, ..p });
        },
    }
}

fn imaged(o: &mut Output, img: CursorImage)
    ensures
        *final(o) == imaged_head(img)(*old(o)),
{
    o.cursor.client_hidden = false;
    match o.cursor.plane {
        None => {},
        Some(p) => {
            o.cursor.plane = Some(
                CursorPlane {
                    image: Some((img.pixels, img.width, img.height)),
                    hotspot: img.hot,
                    commit: true,
                    ..p
                },
            );
        },
    }
}

impl Display {
    fn first_theme(&self) -> (r: Option<CursorImage>)
        ensures
            r == theme_of_first(self.outputs@),
    {
        if self.outputs.len() == 0 { None } else { self.outputs[0].cursor.theme }
    }

    /// The vt is about to leave while we still hold master: every plane goes
    /// dark and stays locked until a pause, a resume, or the unlock timer.
    pub fn prepare_vt_switch(&mut self)
        ensures
            final(self).outputs@ == each(old(self).outputs@, leaving_head()),
            *final(self) == (Display { outputs: final(self).outputs, ..*old(self) }),
    {
        let n: usize = self.outputs.len();
        for i in 0..n
            invariant
                n == self.outputs@.len(),
                n == old(self).outputs@.len(),
                *self == (Display { outputs: self.outputs, ..*old(self) }),
                forall|j: int| 0 <= j < i ==> self.outputs@[j] == leaving_head()(old(self).outputs@[j]),
                forall|j: int| i <= j < n ==> self.outputs@[j] == old(self).outputs@[j],
        {
            bench(&mut self.outputs[i]);
            self.outputs[i].cursor.locked = true;
            self.outputs[i].cursor.rearm = true;
        }
        assert(self.outputs@ =~= each(old(self).outputs@, leaving_head()));
    }

    /// The unlock timer of one head ran out. Reports whether the head re-armed
    /// its cursor, which needs a redraw.
    pub fn vt_rearm(&mut self, slot: usize) -> (r: bool)
        requires
            slot < old(self).outputs@.len(),
        ensures
            r == (!old(self).outputs@[slot as int].paused && old(self).outputs@[slot as int].cursor.locked),
            !r ==> *final(self) == *old(self),
            r ==> {
                let o = old(self).outputs@[slot as int];
                let plane = match o.cursor.plane {
                    None => None,
                    Some(p) => Some(
                        CursorPlane {
                            enabled: !old(self).sw && !o.cursor.client_hidden,
                            commit: true,
                            ..p
                        },
                    ),
                };
                let after = with_cursor(o, HeadCursor { locked: false, rearm: false, plane, ..o.cursor });
                &&& final(self).outputs@ == old(self).outputs@.update(slot as int, after)
                &&& *final(self) == (Display { outputs: final(self).outputs, ..*old(self) })
            },
    {
        if self.outputs[slot].paused || !self.outputs[slot].cursor.locked {
            return false;
        }
        let sw: bool = self.sw;
        let mut c: HeadCursor = self.outputs[slot].cursor;
        c.locked = false;
        c.rearm = false;
        match c.plane {
            None => {},
            Some(p) => {
                c.plane = Some(CursorPlane { enabled: !sw && !c.client_hidden, commit: true, ..p });
            },
        }
        self.outputs[slot].cursor = c;
        true
    }

    pub fn software_cursor(&self) -> (r: bool)
        ensures
            r == self.sw,
    {
        self.sw
    }

    /// Composites the cursor instead of scanning a plane. Reports whether the
    /// setting changed, which needs a redraw.
    pub fn set_software_cursor(&mut self, on: bool) -> (r: bool)
        ensures
            r == (old(self).sw != on),
            !r ==> *final(self) == *old(self),
            r && !on ==> *final(self) == (Display { sw: false, ..*old(self) }),
            r && on ==> {
                let seed = theme_of_first(old(self).outputs@);
                let seeded = old(self).sw_image is None && seed is Some;
                &&& final(self).outputs@ == each(old(self).outputs@, benched_head())
                &&& *final(self) == (Display {
                    sw: true,
                    outputs: final(self).outputs,
                    sw_image: if seeded { seed } else { old(self).sw_image },
                    sw_hot: if seeded { seed->0.hot } else { old(self).sw_hot },
                    ..*old(self)
                })
            },
    {
        if self.sw == on {
            return false;
        }
        self.sw = on;
        if on {
            let n: usize = self.outputs.len();
            for i in 0..n
                invariant
                    n == self.outputs@.len(),
                    n == old(self).outputs@.len(),
                    *self == (Display { sw: true, outputs: self.outputs, ..*old(self) }),
                    forall|j: int| 0 <= j < i ==> self.outputs@[j] == benched_head()(old(self).outputs@[j]),
                    forall|j: int| i <= j < n ==> self.outputs@[j] == old(self).outputs@[j],
            {
                bench(&mut self.outputs[i]);
            }
            assert(self.outputs@ =~= each(old(self).outputs@, benched_head()));
            if self.sw_image.is_none() {
                let seed: Option<CursorImage> = self.first_theme();
                match seed {
                    None => {},
                    Some(img) => {
                        self.sw_image = Some(img);
                        self.sw_hot = img.hot;
                    },
                }
            }
        }
        true
    }

    /// Pointer motion. Hardware planes follow it without a redraw: only the
    /// head under the pointer shows its plane. Reports whether a redraw is
    /// needed: in software mode always, else when a head without a plane is
    /// under the pointer.
    pub fn move_cursor(&mut self, x: i32, y: i32) -> (r: bool)
        requires
            crate::output::sizes_fit(old(self).outputs@),
            forall|i: int| 0 <= i < old(self).outputs@.len() ==> move_fits(#[trigger] old(self).outputs@[i], x, y),
        ensures
            old(self).sw ==> r && *final(self) == *old(self),
            !old(self).sw ==> {
                &&& r == exists|i: int|
                    0 <= i < old(self).outputs@.len() && moved_damages(x, y)(#[trigger] old(self).outputs@[i])
                &&& final(self).outputs@ == each(old(self).outputs@, moved_head(x, y))
                &&& *final(self) == (Display { outputs: final(self).outputs, ..*old(self) })
            },
    {
        if self.sw {
            return true;
        }
        let n: usize = self.outputs.len();
        let mut damage: bool = false;
        for i in 0..n
            invariant
                n == self.outputs@.len(),
                n == old(self).outputs@.len(),
                crate::output::sizes_fit(old(self).outputs@),
                forall|j: int| 0 <= j < n ==> move_fits(#[trigger] old(self).outputs@[j], x, y),
                *self == (Display { outputs: self.outputs, ..*old(self) }),
                forall|j: int| 0 <= j < i ==> self.outputs@[j] == moved_head(x, y)(old(self).outputs@[j]),
                forall|j: int| i <= j < n ==> self.outputs@[j] == old(self).outputs@[j],
                damage == exists|j: int| 0 <= j < i && moved_damages(x, y)(#[trigger] old(self).outputs@[j]),
        {
            let ghost o = old(self).outputs@[i as int];
            assert(self.outputs@[i as int] == o);
            assert(move_fits(o, x, y));
            let rect: Rect = self.outputs[i].rect();
            let c: HeadCursor = self.outputs[i].cursor;
            let (ox, oy) = self.outputs[i].pos;
            if !c.locked && self.outputs[i].vrefresh.is_some() {
                let inside: bool = rect.contains(x, y) && !c.client_hidden;
                match c.plane {
                    None => {
                        if inside {
                            assert(moved_damages(x, y)(o));
                            damage = true;
                        }
                    },
                    Some(p) => {
                        let next: CursorPlane = if inside {
                            CursorPlane {
                                enabled: true,
                                x: x - ox - p.hotspot.0,
                                y: y - oy - p.hotspot.1,
                                commit: true,
                                ..p
                            }
                        } else {
                            CursorPlane { enabled: false, commit: true, ..p }
                        };
                        self.outputs[i].cursor.plane = Some(next);
                    },
                }
            }
        }
        assert(self.outputs@ =~= each(old(self).outputs@, moved_head(x, y)));
        damage
    }

    /// Client-driven hide; a leaving vt uses the lock instead.
    pub fn set_cursor_hidden(&mut self, hidden: bool)
        ensures
            *final(self) == (Display { sw_hidden: hidden, outputs: final(self).outputs, ..*old(self) }),
            old(self).sw ==> final(self).outputs == old(self).outputs,
            !old(self).sw ==> final(self).outputs@ == each(old(self).outputs@, hidden_head(hidden)),
    {
        self.sw_hidden = hidden;
        if self.sw {
            return;
        }
        let n: usize = self.outputs.len();
        for i in 0..n
            invariant
                n == self.outputs@.len(),
                n == old(self).outputs@.len(),
                *self == (Display { sw_hidden: hidden, outputs: self.outputs, ..*old(self) }),
                forall|j: int| 0 <= j < i ==> self.outputs@[j] == hidden_head(hidden)(old(self).outputs@[j]),
                forall|j: int| i <= j < n ==> self.outputs@[j] == old(self).outputs@[j],
        {
            let mut c: HeadCursor = self.outputs[i].cursor;
            c.client_hidden = hidden;
            match c.plane {
                None => {},
                Some(p) => {
                    c.plane = Some(CursorPlane { enabled: !hidden && !c.locked, commit: true, ..p });
                },
            }
            self.outputs[i].cursor = c;
        }
        assert(self.outputs@ =~= each(old(self).outputs@, hidden_head(hidden)));
    }

    /// A client cursor picture onto every plane.
    pub fn set_cursor_image(&mut self, img: CursorImage)
        requires
            old(self).sw_gen < u64::MAX,
        ensures
            *final(self) == (Display {
                sw_image: Some(img),
                sw_hot: img.hot,
                sw_hidden: false,
                sw_gen: (old(self).sw_gen + 1) as u64,
                outputs: final(self).outputs,
                ..*old(self)
            }),
            old(self).sw ==> final(self).outputs == old(self).outputs,
            !old(self).sw ==> final(self).outputs@ == each(old(self).outputs@, imaged_head(img)),
    {
        self.sw_image = Some(img);
        self.sw_hot = img.hot;
        self.sw_hidden = false;
        self.sw_gen = self.sw_gen + 1;
        if self.sw {
            return;
        }
        let n: usize = self.outputs.len();
        let ghost mid = *self;
        for i in 0..n
            invariant
                n == self.outputs@.len(),
                mid.outputs == old(self).outputs,
                n == mid.outputs@.len(),
                *self == (Display { outputs: self.outputs, ..mid }),
                forall|j: int| 0 <= j < i ==> self.outputs@[j] == imaged_head(img)(mid.outputs@[j]),
                forall|j: int| i <= j < n ==> self.outputs@[j] == mid.outputs@[j],
        {
            imaged(&mut self.outputs[i], img);
        }
        assert(self.outputs@ =~= each(old(self).outputs@, imaged_head(img)));
    }

    /// Back to the seeded theme arrow.
    pub fn set_cursor_default(&mut self)
        requires
            old(self).sw_gen < u64::MAX,
        ensures
            ({
                let seed = theme_of_first(old(self).outputs@);
                *final(self) == (Display {
                    sw_image: if seed is Some { seed } else { old(self).sw_image },
                    sw_hot: if seed is Some { seed->0.hot } else { old(self).sw_hot },
                    sw_hidden: false,
                    sw_gen: (old(self).sw_gen + 1) as u64,
                    outputs: final(self).outputs,
                    ..*old(self)
                })
            }),
            old(self).sw ==> final(self).outputs == old(self).outputs,
            !old(self).sw ==> final(self).outputs@ == each(old(self).outputs@, themed_head()),
    {
        let seed: Option<CursorImage> = self.first_theme();
        match seed {
            None => {},
            Some(img) => {
                self.sw_image = Some(img);
                self.sw_hot = img.hot;
            },
        }
        self.sw_hidden = false;
        self.sw_gen = self.sw_gen + 1;
        if self.sw {
            return;
        }
        let n: usize = self.outputs.len();
        let ghost mid = *self;
        for i in 0..n
            invariant
                n == self.outputs@.len(),
                mid.outputs == old(self).outputs,
                n == mid.outputs@.len(),
                *self == (Display { outputs: self.outputs, ..mid }),
                forall|j: int| 0 <= j < i ==> self.outputs@[j] == themed_head()(mid.outputs@[j]),
                forall|j: int| i <= j < n ==> self.outputs@[j] == mid.outputs@[j],
        {
            let theme: Option<CursorImage> = self.outputs[i].cursor.theme;
            match theme {
                None => {},
                Some(img) => imaged(&mut self.outputs[i], img),
            }
        }
        assert(self.outputs@ =~= each(old(self).outputs@, themed_head()));
    }
}

/// A fresh head with its picture: the theme's, else the arrow without a hotspot.
pub open spec fn seeded(o: Output, loaded: Option<CursorImage>, arrow: u64) -> Output {
    match o.cursor.plane {
        None => o,
        Some(p) => {
            let img = match loaded {
                Some(img) => img,
                None => CursorImage { pixels: arrow, width: 12, height: 19, hot: (0, 0) },
            };
            with_cursor(
                o,
                HeadCursor {
                    theme: Some(img),
                    plane: Some(
                        CursorPlane {
                            image: Some((img.pixels, img.width, img.height)),
                            hotspot: if loaded is Some { img.hot } else { p.hotspot },
                            ..p
                        },
                    ),
                    ..o.cursor
                },
            )
        },
    }
}

/// Seeds a fresh head. `loaded` is the theme's picture, `arrow` the pixels of the
/// arrow.
pub fn seed_cursor(out: &mut Output, loaded: Option<CursorImage>, arrow: u64)
    ensures
        *final(out) == seeded(*old(out), loaded, arrow),
{
    match out.cursor.plane {
        None => {},
        Some(p) => {
            let (img, hotspot) = match loaded {
                Some(img) => (img, img.hot),
                None => (
                    CursorImage { pixels: arrow, width: ARROW_W, height: ARROW_H, hot: (0, 0) },
                    p.hotspot,
                ),
            };
            out.cursor.theme = Some(img);
            out.cursor.plane = Some(
                CursorPlane { image: Some((img.pixels, img.width, img.height)), hotspot, ..p },
            );
        },
    }
}

/// A composited cursor: output-local origin, size, and whether the texture has
/// to be rebuilt first.
#[derive(Clone, Copy, Debug)]
pub struct SwCursor {
    pub x: i32,
    pub y: i32,
    pub width: u32,
    pub height: u32,
    pub rebuild: bool,
}

/// Whether a frame of `o` carries the cursor with the pointer at `(px, py)`.
/// `force` paints for captures even where a plane scans out; a hidden cursor
/// stays hidden either way.
pub open spec fn frame_carries_cursor(d: Display, o: Output, px: i32, py: i32, force: bool) -> bool {
    &&& force || d.sw || o.vrefresh is None || o.cursor.plane is None
    &&& !d.sw_hidden
    &&& !o.cursor.locked
    &&& o.rect_spec().contains_spec(px as int, py as int)
    &&& d.sw_image is Some
}

/// The composited cursor: topmost, on the head under the pointer only.
pub fn draw_sw_cursor(d: &Display, slot: usize, pointer: Option<(i32, i32)>, force: bool) -> (r: Option<SwCursor>)
    requires
        slot < d.outputs@.len(),
        crate::output::sizes_fit(d.outputs@),
        pointer matches Some(p) ==> frame_carries_cursor(*d, d.outputs@[slot as int], p.0, p.1, force) ==> {
            let o = d.outputs@[slot as int];
            &&& i32::MIN <= p.0 - d.sw_hot.0 <= i32::MAX
            &&& i32::MIN <= p.1 - d.sw_hot.1 <= i32::MAX
            &&& i32::MIN <= p.0 - d.sw_hot.0 - o.pos.0 <= i32::MAX
            &&& i32::MIN <= p.1 - d.sw_hot.1 - o.pos.1 <= i32::MAX
        },
    ensures
        r is Some <==> pointer is Some && frame_carries_cursor(
            *d,
            d.outputs@[slot as int],
            (pointer->0).0,
            (pointer->0).1,
            force,
        ),
        r matches Some(c) ==> {
            let o = d.outputs@[slot as int];
            &&& c.x == (pointer->0).0 - d.sw_hot.0 - o.pos.0
            &&& c.y == (pointer->0).1 - d.sw_hot.1 - o.pos.1
            &&& c.width == d.sw_image->0.width
            &&& c.height == d.sw_image->0.height
            &&& c.rebuild == (o.cursor.generation != d.sw_gen || !o.cursor.textured)
        },
{
    let out: &Output = &d.outputs[slot];
    let plane_less: bool = out.vrefresh.is_none() || out.cursor.plane.is_none();
    if !(force || d.sw || plane_less) || d.sw_hidden || out.cursor.locked {
        return None;
    }
    match pointer {
        None => None,
        Some((px, py)) => {
            if !out.rect().contains(px, py) {
                return None;
            }
            match d.sw_image {
                None => None,
                Some(img) => Some(
                    SwCursor {
                        x: px - d.sw_hot.0 - out.pos.0,
                        y: py - d.sw_hot.1 - out.pos.1,
                        width: img.width,
                        height: img.height,
                        rebuild: out.cursor.generation != d.sw_gen || !out.cursor.textured,
                    },
                ),
            }
        },
    }
}

impl Display {
    /// The picture of the composited cursor is in this head's texture now.
    pub fn cursor_uploaded(&mut self, slot: usize)
        requires
            slot < old(self).outputs@.len(),
        ensures
            ({
                let o = old(self).outputs@[slot as int];
                let c = HeadCursor { generation: old(self).sw_gen, textured: true, ..o.cursor };
                &&& final(self).outputs@ == old(self).outputs@.update(slot as int, with_cursor(o, c))
                &&& *final(self) == (Display { outputs: final(self).outputs, ..*old(self) })
            }),
    {
        let generation: u64 = self.sw_gen;
        self.outputs[slot].cursor.generation = generation;
        self.outputs[slot].cursor.textured = true;
        assert(self.outputs@ =~= old(self).outputs@.update(
            slot as int,
            with_cursor(
                old(self).outputs@[slot as int],
                HeadCursor { generation, textured: true, ..old(self).outputs@[slot as int].cursor },
            ),
        ));
    }
}

/// Motion and client pictures never light a plane while the vt is leaving, nor does a
/// client that stops hiding its cursor.
pub proof fn leaving_planes_stay_dark(o: Output, x: i32, y: i32, img: CursorImage, hidden: bool)
    ensures
        ({
            let dark = leaving_head()(o);
            &&& moved_head(x, y)(dark) == dark
            &&& dark.cursor.plane matches Some(p) ==> !p.enabled
            &&& imaged_head(img)(dark).cursor.plane matches Some(p) ==> !p.enabled
            &&& hidden_head(hidden)(dark).cursor.plane matches Some(p) ==> !p.enabled
        }),
{
}

/// After motion, a head shows its plane exactly where the pointer is over it and no
/// client hides the cursor.
pub proof fn planes_follow_the_pointer(o: Output, x: i32, y: i32)
    requires
        !o.cursor.locked,
        o.vrefresh is Some,
        o.cursor.plane is Some,
    ensures
        moved_head(x, y)(o).cursor.plane matches Some(p) && (p.enabled <==> pointer_inside(o, x, y)),
{
}

} // verus!
