//! Screen copies: output pixels for capture tools.
use crate::protocol::events::{refused, sent, told_invalid, Event, Out, Sent};
use crate::protocol::interfaces::Interface;
use crate::protocol::shm::WlBuffer;
use crate::protocol::{stamp, stamp_spec, ObjectId, Stamp};
use crate::rect::Rect;
use vstd::prelude::*;

verus! {

pub const WL_SHM_XRGB8888: u32 = 1;

pub const ERR_INVALID_BUFFER: u32 = 1;

/// the version from which a client waits for the end of the buffer list
pub const BUFFER_DONE_SINCE: u32 = 3;

pub struct ScreencopyManagerGlobal;

impl ScreencopyManagerGlobal {
    pub fn interface(&self) -> (r: Interface)
        ensures
            r is ZwlrScreencopyManagerV1,
    {
        Interface::ZwlrScreencopyManagerV1
    }

    pub fn version(&self) -> (r: u32)
        ensures
            r == 3,
    {
        3
    }

    pub fn bind(&self, client: u32, id: ObjectId, version: u32) -> (r: ScreencopyManager)
        ensures
            r == (ScreencopyManager { id, client, version }),
    {
        ScreencopyManager { id, client, version }
    }
}

#[derive(Clone, Copy, Debug, PartialEq, Eq, Structural)]
pub struct ScreencopyManager {
    pub id: ObjectId,
    pub client: u32,
    pub version: u32,
}

/// A part of an output: left, top, width, height.
#[derive(Clone, Copy, Debug, PartialEq, Eq, Structural)]
pub struct Region {
    pub x: i32,
    pub y: i32,
    pub w: i32,
    pub h: i32,
}

/// The pixels asked for: the output, cut to the region.
pub open spec fn asked(ow: u32, oh: u32, region: Option<Region>) -> Rect {
    let full = Rect::sized_saturating_spec(0, 0, ow as i32, oh as i32);
    match region {
        Some(r) => full.intersect_spec(Rect::sized_saturating_spec(r.x, r.y, r.w, r.h)),
        None => full,
    }
}

/// What a new frame tells its client.
pub open spec fn introduced(client: u32, version: u32, id: ObjectId, geo: Option<(usize, u32, u32)>, region: Option<
    Region,
>) -> Seq<Sent> {
    let failed = seq![sent(client, id, Event::CopyFailed)];
    match geo {
        None => failed,
        Some((_, ow, oh)) => {
            let r = asked(ow, oh, region);
            if r.empty_spec() {
                failed
            } else {
                let (w, h) = ((r.x2 - r.x1) as u32, (r.y2 - r.y1) as u32);
                let buffer = seq![
                    sent(
                        client,
                        id,
                        Event::CopyBuffer { format: WL_SHM_XRGB8888, width: w, height: h, stride: (w * 4) as u32 },
                    ),
                ];
                if version >= BUFFER_DONE_SINCE {
                    buffer.push(sent(client, id, Event::CopyBufferDone))
                } else {
                    buffer
                }
            }
        },
    }
}

/// The rows of the output can be counted in bytes.
pub open spec fn countable(geo: Option<(usize, u32, u32)>, region: Option<Region>) -> bool {
    geo matches Some((_, ow, oh)) ==> {
        let r = asked(ow, oh, region);
        !r.empty_spec() ==> (r.x2 - r.x1) * 4 <= u32::MAX
    }
}

pub open spec fn frame_made(m: ScreencopyManager, id: ObjectId, geo: Option<(usize, u32, u32)>, region: Option<
    Region,
>, overlay_cursor: bool) -> ScreencopyFrame {
    ScreencopyFrame {
        id,
        client: m.client,
        version: m.version,
        slot: match geo {
            Some((i, _, _)) => Some(i),
            None => None,
        },
        rect: match geo {
            Some((_, ow, oh)) if !asked(ow, oh, region).empty_spec() => asked(ow, oh, region),
            _ => Rect { x1: 0, y1: 0, x2: 0, y2: 0 },
        },
        used: false,
        overlay_cursor,
    }
}

impl ScreencopyManager {
    /// A frame of an output, and what its buffer has to look like. `geo` is the
    /// output's slot and size; without one, or when nothing of it was asked for, the
    /// frame is dead on arrival.
    pub fn make_frame(
        &self,
        out: &mut Out,
        id: ObjectId,
        geo: Option<(usize, u32, u32)>,
        region: Option<Region>,
        overlay_cursor: bool,
    ) -> (r: ScreencopyFrame)
        requires
            countable(geo, region),
        ensures
            r == frame_made(*self, id, geo, region, overlay_cursor),
            r.wf(),
            final(out).sent@ == old(out).sent@ + introduced(self.client, self.version, id, geo, region),
    {
        let mut frame = ScreencopyFrame {
            id,
            client: self.client,
            version: self.version,
            slot: None,
            rect: Rect { x1: 0, y1: 0, x2: 0, y2: 0 },
            used: false,
            overlay_cursor,
        };
        let (i, ow, oh): (usize, u32, u32) = match geo {
            None => {
                out.event(self.client, id, Event::CopyFailed);
                return frame;
            },
            Some(g) => g,
        };
        frame.slot = Some(i);
        let full: Rect = Rect::new_sized_saturating(0, 0, ow as i32, oh as i32);
        let rect: Rect = match region {
            Some(r) => full.intersect(Rect::new_sized_saturating(r.x, r.y, r.w, r.h)),
            None => full,
        };
        if rect.is_empty() {
            out.event(self.client, id, Event::CopyFailed);
            return frame;
        }
        frame.rect = rect;
        let (w, h): (u32, u32) = (rect.width() as u32, rect.height() as u32);
        out.event(
            self.client,
            id,
            Event::CopyBuffer { format: WL_SHM_XRGB8888, width: w, height: h, stride: w * 4 },
        );
        if self.version >= BUFFER_DONE_SINCE {
            out.event(self.client, id, Event::CopyBufferDone);
        }
        assert(out.sent@ =~= old(out).sent@ + introduced(self.client, self.version, id, geo, region));
        frame
    }

    /// A frame of the whole output.
    pub fn capture_output(
        &self,
        out: &mut Out,
        id: ObjectId,
        geo: Option<(usize, u32, u32)>,
        overlay_cursor: i32,
    ) -> (r: ScreencopyFrame)
        requires
            countable(geo, None),
        ensures
            r == frame_made(*self, id, geo, None, overlay_cursor != 0),
            r.wf(),
            final(out).sent@ == old(out).sent@ + introduced(self.client, self.version, id, geo, None),
    {
        self.make_frame(out, id, geo, None, overlay_cursor != 0)
    }

    /// A frame of a part of the output.
    pub fn capture_output_region(
        &self,
        out: &mut Out,
        id: ObjectId,
        geo: Option<(usize, u32, u32)>,
        region: Region,
        overlay_cursor: i32,
    ) -> (r: ScreencopyFrame)
        requires
            countable(geo, Some(region)),
        ensures
            r == frame_made(*self, id, geo, Some(region), overlay_cursor != 0),
            r.wf(),
            final(out).sent@ == old(out).sent@ + introduced(self.client, self.version, id, geo, Some(region)),
    {
        self.make_frame(out, id, geo, Some(region), overlay_cursor != 0)
    }
}

#[derive(Clone, Copy, Debug, PartialEq, Eq, Structural)]
pub struct ScreencopyFrame {
    pub id: ObjectId,
    pub client: u32,
    pub version: u32,
    /// output slot at creation; without one the frame is dead on arrival
    pub slot: Option<usize>,
    pub rect: Rect,
    pub used: bool,
    /// compose the pointer into the copy
    pub overlay_cursor: bool,
}

/// A copy to carry out: which pixels, and where they go.
#[derive(Clone, Copy, Debug, PartialEq, Eq, Structural)]
pub struct CopyJob {
    pub slot: usize,
    pub rect: Rect,
    pub overlay_cursor: bool,
    /// the byte the buffer starts at in its pool
    pub base: usize,
    /// bytes from row to row
    pub stride: usize,
}

impl CopyJob {
    pub open spec fn width(self) -> int {
        self.rect.x2 - self.rect.x1
    }

    pub open spec fn height(self) -> int {
        self.rect.y2 - self.rect.y1
    }

    /// The rows fit the stride, and the last one can be addressed.
    pub open spec fn wf(self) -> bool {
        &&& self.rect.wf()
        &&& self.width() * 4 <= self.stride
        &&& self.base + self.stride * self.height() <= usize::MAX
    }

    /// Where each row of the copied pixels goes.
    pub fn rows(&self) -> (r: Vec<RowCopy>)
        requires
            self.wf(),
        ensures
            r@.len() == self.height(),
            forall|i: int| 0 <= i < self.height() ==> #[trigger] r@[i] == self.row(i),
    {
        let h: usize = self.rect.height() as usize;
        let row: usize = self.rect.width() as usize * 4;
        let mut v: Vec<RowCopy> = Vec::new();
        for i in 0..h
            invariant
                self.wf(),
                h == self.height(),
                row == self.width() * 4,
                v@.len() == i,
                forall|j: int| 0 <= j < i ==> #[trigger] v@[j] == self.row(j),
        {
            proof {
                let (s, b, n, k, hh) = (self.stride as int, self.base as int, row as int, i as int, h as int);
                assert(0 <= k * n <= k * s <= hh * s) by (nonlinear_arith)
                    requires
                        0 <= n <= s,
                        0 <= k <= hh,
                ;
                assert(hh * s == s * hh) by (nonlinear_arith);
            }
            v.push(RowCopy { from: i * row, len: row, to: (self.base + i * self.stride) as u64 });
        }
        v
    }

    pub open spec fn row(self, i: int) -> RowCopy {
        RowCopy {
            from: (i * (self.width() * 4)) as usize,
            len: (self.width() * 4) as usize,
            to: (self.base + i * self.stride) as u64,
        }
    }
}

/// One row: `len` bytes from this byte of the copied pixels to that byte of the pool.
#[derive(Clone, Copy, Debug, PartialEq, Eq, Structural)]
pub struct RowCopy {
    pub from: usize,
    pub len: usize,
    pub to: u64,
}

/// The buffer has the frame's size, and its rows hold the frame's.
pub open spec fn suits(frame: ScreencopyFrame, buf: WlBuffer) -> bool {
    let r = frame.rect;
    let b = buf.rect;
    &&& b.x2 - b.x1 == r.x2 - r.x1
    &&& b.y2 - b.y1 == r.y2 - r.y1
    &&& buf.stride >= (r.x2 - r.x1) * 4
}

/// What a finished copy tells the client.
pub open spec fn reported(frame: ScreencopyFrame, with_damage: bool, nsec: u64) -> Seq<Sent> {
    let s = stamp_spec(nsec);
    let r = frame.rect;
    let flags = seq![sent(frame.client, frame.id, Event::CopyFlags { flags: 0 })];
    let damage = if with_damage {
        seq![
            sent(
                frame.client,
                frame.id,
                Event::CopyDamage { x: 0, y: 0, width: (r.x2 - r.x1) as u32, height: (r.y2 - r.y1) as u32 },
            ),
        ]
    } else {
        Seq::empty()
    };
    flags + damage + seq![
        sent(
            frame.client,
            frame.id,
            Event::CopyReady { sec_hi: s.sec_hi, sec_lo: s.sec_lo, nsec: s.nsec },
        ),
    ]
}

impl ScreencopyFrame {
    pub open spec fn wf(self) -> bool {
        self.rect.wf() && (self.rect.x2 - self.rect.x1) * 4 <= u32::MAX
    }

    /// Starts the copy into a buffer, `found` under the id that the client gave. The
    /// result is what is left to carry out, `None` when the request ends here.
    pub fn copy(&mut self, out: &mut Out, buffer: ObjectId, found: Option<&WlBuffer>) -> (r: Option<CopyJob>)
        requires
            old(self).wf(),
            found is Some ==> found->0.wf(),
        ensures
            *final(self) == (ScreencopyFrame { used: true, ..*old(self) }),
            r is Some ==> r->0.wf(),
            if old(self).used {
                &&& r is None
                &&& refused(
                    *old(out),
                    *final(out),
                    old(self).client,
                    old(self).id,
                    0,
                    "the frame was already used"@,
                )
            } else {
                match old(self).slot {
                    None => {
                        &&& r is None
                        &&& final(out).sent@ == old(out).sent@.push(
                            sent(old(self).client, old(self).id, Event::CopyFailed),
                        )
                    },
                    Some(slot) => match found {
                        None => r is None && told_invalid(*old(out), *final(out), old(self).client, buffer),
                        Some(buf) => if !suits(*old(self), *buf) {
                            &&& r is None
                            &&& refused(
                                *old(out),
                                *final(out),
                                old(self).client,
                                old(self).id,
                                ERR_INVALID_BUFFER,
                                "buffer does not fit the frame"@,
                            )
                        } else {
                            match buf.storage {
                                crate::protocol::shm::BufferStorage::Dmabuf(_) => {
                                    &&& r is None
                                    &&& refused(
                                        *old(out),
                                        *final(out),
                                        old(self).client,
                                        old(self).id,
                                        ERR_INVALID_BUFFER,
                                        "copy needs an shm buffer"@,
                                    )
                                },
                                crate::protocol::shm::BufferStorage::Shm { offset, .. } => {
                                    &&& r == Some(
                                        CopyJob {
                                            slot,
                                            rect: old(self).rect,
                                            overlay_cursor: old(self).overlay_cursor,
                                            base: offset,
                                            stride: buf.stride as usize,
                                        },
                                    )
                                    &&& final(out).sent@ == old(out).sent@
                                },
                            }
                        },
                    },
                }
            },
    {
        if self.used {
            out.protocol_error(self.client, self.id, 0, "the frame was already used");
            return None;
        }
        self.used = true;
        let slot: usize = match self.slot {
            None => {
                out.event(self.client, self.id, Event::CopyFailed);
                return None;
            },
            Some(s) => s,
        };
        let buf: &WlBuffer = match found {
            None => {
                out.invalid_object(self.client, buffer);
                return None;
            },
            Some(b) => b,
        };
        let (w, h): (u32, u32) = (self.rect.width() as u32, self.rect.height() as u32);
        let stride: usize = buf.stride as usize;
        if buf.rect.width() as u32 != w || buf.rect.height() as u32 != h || (stride as u64) < w as u64 * 4 {
            out.protocol_error(self.client, self.id, ERR_INVALID_BUFFER, "buffer does not fit the frame");
            return None;
        }
        match buf.shm_write_target() {
            None => {
                out.protocol_error(self.client, self.id, ERR_INVALID_BUFFER, "copy needs an shm buffer");
                None
            },
            Some(base) => Some(CopyJob { slot, rect: self.rect, overlay_cursor: self.overlay_cursor, base, stride }),
        }
    }

    /// Reports how the copy went, and when it was done. There is no damage tracking:
    /// where damage was asked for, the whole frame is.
    pub fn copied(&self, out: &mut Out, ok: bool, with_damage: bool, nsec: u64)
        requires
            self.wf(),
        ensures
            final(out).sent@ == old(out).sent@ + (if ok {
                reported(*self, with_damage, nsec)
            } else {
                seq![sent(self.client, self.id, Event::CopyFailed)]
            }),
    {
        if !ok {
            out.event(self.client, self.id, Event::CopyFailed);
            return;
        }
        let s: Stamp = stamp(nsec);
        let (dw, dh): (u32, u32) = (self.rect.width() as u32, self.rect.height() as u32);
        out.event(self.client, self.id, Event::CopyFlags { flags: 0 });
        if with_damage {
            out.event(self.client, self.id, Event::CopyDamage { x: 0, y: 0, width: dw, height: dh });
        }
        out.event(
            self.client,
            self.id,
            Event::CopyReady { sec_hi: s.sec_hi, sec_lo: s.sec_lo, nsec: s.nsec },
        );
        assert(out.sent@ =~= old(out).sent@ + reported(*self, with_damage, nsec));
    }
}

/// Rows of a copy neither overlap nor leave the buffer.
pub proof fn rows_are_apart(c: CopyJob, i: int, j: int)
    requires
        c.wf(),
        0 <= i < j < c.height(),
    ensures
        c.base + i * c.stride + c.width() * 4 <= c.base + j * c.stride,
        c.base + j * c.stride + c.width() * 4 <= c.base + c.stride * c.height(),
{
    let (s, n, h) = (c.stride as int, c.width() * 4, c.height());
    assert(i * s + n <= j * s && j * s + n <= s * h) by (nonlinear_arith)
        requires
            0 <= n <= s,
            0 <= i < j < h,
    ;
}

} // verus!
